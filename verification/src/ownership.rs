//! Which front door the history of a bucket belongs to. The front doors share one namespace;
//! what one of them protects the others leave alone.

use vstd::prelude::*;
use vstd::string::*;
use crate::azure::basics::{
    azure_history_mode, foreign_history_mode, history_conflict, positive,
    requested_local_retention_modes, AZURE_SOFT_DELETE_DAYS_KEY, AZURE_VERSIONING_KEY,
    GCS_RETENTION_SECONDS_KEY, GCS_SOFT_DELETE_SECONDS_KEY,
};
use crate::azure::containers::{protect_container, retention_metadata};
use crate::gcs::basics::foreign_data_protection;
use crate::gcs::json_api::{
    apply_bucket_data_protection, bucket_data_protection_requested, inner_field,
    json_unsigned_integer, number_text, soft_delete_seconds, validate_bucket_data_protection,
    with_retention, AppliedView,
};
use crate::http::{ContextView, ResponseView};
use crate::json::{field, JsonView};
use crate::number::{decimal, reading_undoes_writing, unsigned_is_not_negative};
use crate::store::{BucketView, EffectView, OutcomeView, StepView, TapeView};
use crate::table::{get, get_with, get_without, with};
use crate::views::{Pairs, Text};

verus! {

/// Whether Google Cloud Storage protects the data of a bucket.
pub open spec fn gcs_protects(bucket: BucketView) -> bool {
    positive(get(bucket.metadata, GCS_SOFT_DELETE_SECONDS_KEY@)) || positive(
        get(bucket.metadata, GCS_RETENTION_SECONDS_KEY@),
    )
}

/// What one front door protects is foreign to the other.
pub proof fn protection_is_foreign_to_the_other(bucket: BucketView)
    ensures
        azure_history_mode(bucket) ==> foreign_data_protection(Some(bucket)),
        gcs_protects(bucket) ==> foreign_history_mode(bucket) && history_conflict(Some(bucket)),
{
}

/// The metadata with which Azure Blob claims a container makes it its own.
pub proof fn azure_claims_make_it_its_own(
    cx: ContextView,
    bucket: BucketView,
    versioning: bool,
    days: Option<u64>,
)
    requires
        requested_local_retention_modes(cx.stamp, cx.req) == Ok::<_, ResponseView>(
            (versioning, days),
        ),
        versioning || days is Some,
    ensures
        ({
            let claimed = BucketView {
                metadata: retention_metadata(bucket.metadata, versioning, days),
                ..bucket
            };
            azure_history_mode(claimed) && foreign_data_protection(Some(claimed))
        }),
{
    reveal_strlit("azure_versioning_enabled");
    reveal_strlit("azure_soft_delete_days");
    assert(AZURE_VERSIONING_KEY@.len() == 24);
    assert(AZURE_SOFT_DELETE_DAYS_KEY@.len() == 22);
    let versioned = if versioning {
        with(bucket.metadata, AZURE_VERSIONING_KEY@, "true"@)
    } else {
        bucket.metadata
    };
    get_with(bucket.metadata, AZURE_VERSIONING_KEY@, "true"@, AZURE_VERSIONING_KEY@);
    match days {
        Some(days) => {
            let text = decimal(days as int);
            reading_undoes_writing(days as int, u64::MAX as int);
            get_with(versioned, AZURE_SOFT_DELETE_DAYS_KEY@, text, AZURE_SOFT_DELETE_DAYS_KEY@);
            get_with(versioned, AZURE_SOFT_DELETE_DAYS_KEY@, text, AZURE_VERSIONING_KEY@);
        },
        None => {},
    }
}

/// The metadata that Google Cloud Storage gives a bucket whose data it is to protect.
pub open spec fn gcs_claim(metadata: Pairs, payload: JsonView) -> Pairs {
    with_retention(
        match soft_delete_seconds(payload) {
            Some(seconds) => with(metadata, GCS_SOFT_DELETE_SECONDS_KEY@, seconds),
            None => metadata,
        },
        payload,
    )
}

/// The metadata with which Google Cloud Storage claims a bucket makes it its own.
pub proof fn gcs_claims_make_it_its_own(cx: ContextView, bucket: BucketView, payload: JsonView)
    requires
        validate_bucket_data_protection(cx.stamp, cx.req, payload) is None,
        bucket_data_protection_requested(payload),
    ensures
        ({
            let claimed = BucketView { metadata: gcs_claim(bucket.metadata, payload), ..bucket };
            gcs_protects(claimed) && foreign_history_mode(claimed)
        }),
{
    reveal_strlit("gcs_soft_delete_seconds");
    reveal_strlit("gcs_retention_seconds");
    assert(GCS_SOFT_DELETE_SECONDS_KEY@.len() == 23);
    assert(GCS_RETENTION_SECONDS_KEY@.len() == 21);
    let soft = match soft_delete_seconds(payload) {
        Some(seconds) => with(bucket.metadata, GCS_SOFT_DELETE_SECONDS_KEY@, seconds),
        None => bucket.metadata,
    };
    let period = inner_field(payload, "retentionPolicy"@, "retentionPeriod"@);
    let policy = field(payload, "retentionPolicy"@);
    if policy is Some && policy->0 != JsonView::Null {
        let n = json_unsigned_integer(period->0)->0;
        not_negative(period->0);
        reading_undoes_writing(n, u64::MAX as int);
        get_with(soft, GCS_RETENTION_SECONDS_KEY@, decimal(n), GCS_RETENTION_SECONDS_KEY@);
    } else {
        let duration = inner_field(payload, "softDeletePolicy"@, "retentionDurationSeconds"@)->0;
        let seconds = number_text(duration)->0;
        match duration {
            JsonView::Number(n) => reading_undoes_writing(n as int, u64::MAX as int),
            _ => {},
        }
        get_with(
            bucket.metadata,
            GCS_SOFT_DELETE_SECONDS_KEY@,
            seconds,
            GCS_SOFT_DELETE_SECONDS_KEY@,
        );
        get_without(soft, GCS_RETENTION_SECONDS_KEY@, GCS_SOFT_DELETE_SECONDS_KEY@);
    }
}

proof fn not_negative(value: JsonView)
    ensures
        json_unsigned_integer(value) matches Some(n) ==> 0 <= n <= u64::MAX,
{
    match value {
        JsonView::Text(text) => unsigned_is_not_negative(text, u64::MAX as int),
        _ => {},
    }
}

/// What a front door asks storage to record of a claim is the bucket's metadata with that
/// claim in it.
pub proof fn claims_are_recorded(
    cx: ContextView,
    container: Text,
    versioning: bool,
    days: Option<u64>,
    namespace: BucketView,
    payload: JsonView,
    tape: TapeView,
)
    ensures
        protect_container(cx, container, versioning, days, namespace, tape) matches StepView::Perform(
            EffectView::UpdateBucketMetadata(bucket, metadata),
        ) ==> bucket == container && tape.len() > 1 && (tape[1] matches OutcomeView::Bucket(
            Ok(found),
        ) && metadata == retention_metadata(found.metadata, versioning, days)),
        apply_bucket_data_protection(container, payload, tape) matches AppliedView::Halt(
            StepView::Perform(EffectView::UpdateBucketMetadata(bucket, metadata)),
        ) ==> bucket == container && tape.len() > 0 && (tape[0] matches OutcomeView::Bucket(
            Ok(found),
        ) && metadata == gcs_claim(found.metadata, payload)),
{
    if tape.len() > 1 {
        assert(tape.skip(1)[0] == tape[1]);
    }
}

} // verus!
