//! Requests that are served to their end, over storage that does what it is asked.

use vstd::prelude::*;
use crate::gcs::basics::{is_retained, response};
use crate::gcs::checks::{
    check_current_generation_selector, check_gcs_preconditions, json_mutation_condition,
};
use crate::gcs::contents::met_preconditions_hold_in_storage;
use crate::gcs::json_api::delete_json_object;
use crate::http::ContextView;
use crate::store::{
    BucketView, ConditionView, EffectView, ErrorKind, ObjectView, OutcomeView, StepView,
    StorageErrorView, TapeView, UploadSessionView,
};
use crate::views::Text;

verus! {

/// What there is of buckets, objects and upload sessions: what storage holds, and what an
/// adapter remembers.
pub struct Kept {
    pub buckets: Map<Text, BucketView>,
    pub objects: Map<(Text, Text), ObjectView>,
    pub records: Map<Text, UploadSessionView>,
    pub memory: Map<Text, UploadSessionView>,
}

/// What a map holds under a key, where it does.
pub open spec fn found<K, V>(entries: Map<K, V>, key: K) -> Option<V> {
    if entries.contains_key(key) {
        Some(entries[key])
    } else {
        None
    }
}

/// A value, or a failure where there is none.
pub open spec fn or_failure<V>(value: Option<V>, kind: ErrorKind) -> Result<V, StorageErrorView> {
    match value {
        Some(value) => Ok(value),
        None => Err(StorageErrorView { kind, message: Seq::empty() }),
    }
}

impl Kept {
    /// Whether a change under a condition, if there is one, happens.
    pub open spec fn admits(
        self,
        bucket: Text,
        key: Text,
        condition: Option<ConditionView>,
    ) -> bool {
        condition matches Some(condition) ==> condition.holds_of(found(self.objects, (bucket, key)))
    }

    /// What comes of an effect. Those that are not about objects or upload sessions are done.
    pub open spec fn answer(self, effect: EffectView) -> OutcomeView {
        match effect {
            EffectView::GetBucket(bucket) => OutcomeView::Bucket(
                or_failure(found(self.buckets, bucket), ErrorKind::BucketNotFound),
            ),
            EffectView::GetObject(bucket, key) => OutcomeView::Object(
                or_failure(found(self.objects, (bucket, key)), ErrorKind::KeyNotFound),
            ),
            EffectView::PutObjectIf(bucket, key, _, condition) => OutcomeView::Flag(
                Ok(self.admits(bucket, key, Some(condition))),
            ),
            EffectView::DeleteObjectIf(bucket, key, condition) => OutcomeView::Flag(
                Ok(self.admits(bucket, key, Some(condition))),
            ),
            EffectView::TakeUpload(id) => OutcomeView::Upload(Ok(found(self.memory, id))),
            EffectView::LoadUpload(id) => OutcomeView::Upload(Ok(found(self.records, id))),
            _ => OutcomeView::Done(Ok(())),
        }
    }

    /// What there is behind an effect.
    pub open spec fn after(self, effect: EffectView) -> Kept {
        match effect {
            EffectView::PutObject(bucket, key, object) => self.holding(bucket, key, object),
            EffectView::PutObjectIf(bucket, key, object, condition) => if self.admits(
                bucket,
                key,
                Some(condition),
            ) {
                self.holding(bucket, key, object)
            } else {
                self
            },
            EffectView::DeleteObjectIf(bucket, key, condition) => if self.admits(
                bucket,
                key,
                Some(condition),
            ) {
                Kept { objects: self.objects.remove((bucket, key)), ..self }
            } else {
                self
            },
            EffectView::TakeUpload(id) => self.forgetting(id),
            EffectView::SaveUpload(id, session) => Kept {
                records: self.records.insert(id, session),
                ..self
            },
            EffectView::RememberUpload(id, session) => Kept {
                memory: self.memory.insert(id, session),
                ..self
            },
            EffectView::DropUpload(id) => Kept { records: self.records.remove(id), ..self },
            _ => self,
        }
    }

    /// The same with an object in its place.
    pub open spec fn holding(self, bucket: Text, key: Text, object: ObjectView) -> Kept {
        Kept { objects: self.objects.insert((bucket, key), object), ..self }
    }

    /// The same without what is remembered of a session.
    pub open spec fn forgetting(self, id: Text) -> Kept {
        Kept { memory: self.memory.remove(id), ..self }
    }

    /// What a new adapter over the same storage starts with.
    pub open spec fn restarted(self) -> Kept {
        Kept { memory: Map::empty(), ..self }
    }
}

/// A handler's run, of at most so many effects: what there is behind it, and where it ends.
#[verifier::opaque]
pub open spec fn run(
    kept: Kept,
    handler: spec_fn(TapeView) -> StepView,
    tape: TapeView,
    effects: nat,
) -> (Kept, StepView)
    decreases effects,
{
    match handler(tape) {
        StepView::Perform(effect) => if effects == 0 {
            (kept, handler(tape))
        } else {
            run(
                kept.after(effect),
                handler,
                tape.push(kept.answer(effect)),
                (effects - 1) as nat,
            )
        },
        step => (kept, step),
    }
}

/// Where the handler asks for an effect, its run goes on with what comes of it.
pub proof fn run_goes_on(
    kept: Kept,
    handler: spec_fn(TapeView) -> StepView,
    tape: TapeView,
    effects: nat,
    effect: EffectView,
)
    requires
        handler(tape) == StepView::Perform(effect),
        effects > 0,
    ensures
        run(kept, handler, tape, effects) == run(
            kept.after(effect),
            handler,
            tape.push(kept.answer(effect)),
            (effects - 1) as nat,
        ),
{
    reveal(run);
}

/// Where the handler asks for nothing more, its run is over.
pub proof fn run_ends(
    kept: Kept,
    handler: spec_fn(TapeView) -> StepView,
    tape: TapeView,
    effects: nat,
)
    requires
        !(handler(tape) is Perform),
    ensures
        run(kept, handler, tape, effects) == (kept, handler(tape)),
{
    reveal(run);
}

/// A deletion through the JSON API whose preconditions hold, as they do where it has none,
/// takes the object out of its bucket, whichever front door it came through.
pub proof fn deletions_happen(kept: Kept, cx: ContextView, bucket: Text, key: Text)
    requires
        found(kept.objects, (bucket, key)) matches Some(blob) && check_current_generation_selector(
            cx.stamp,
            cx.req,
            blob,
        ) is Ok && check_gcs_preconditions(cx.stamp, cx.req, blob) is Ok && !is_retained(
            cx.stamp.now,
            found(kept.buckets, bucket),
            blob,
        ),
    ensures
        run(
            kept,
            |tape: TapeView| delete_json_object(cx, bucket, key, tape),
            Seq::empty(),
            3,
        ) == (
            (Kept { objects: kept.objects.remove((bucket, key)), ..kept }),
            StepView::Reply(response(cx.stamp, 204)),
        ),
{
    let handler = |tape: TapeView| delete_json_object(cx, bucket, key, tape);
    let blob = kept.objects[(bucket, key)];
    met_preconditions_hold_in_storage(cx.stamp, cx.req, blob);
    let object = EffectView::GetObject(bucket, key);
    let place = EffectView::GetBucket(bucket);
    let delete = EffectView::DeleteObjectIf(bucket, key, json_mutation_condition(cx.req, blob));
    let t0 = Seq::<OutcomeView>::empty();
    run_goes_on(kept, handler, t0, 3, object);
    let t1 = t0.push(kept.answer(object));
    assert(t1.skip(1) =~= Seq::empty());
    run_goes_on(kept, handler, t1, 2, place);
    let t2 = t1.push(kept.answer(place));
    assert(t2.skip(1)[0] == t2[1]);
    assert(t2.skip(1).skip(1) =~= Seq::empty());
    run_goes_on(kept, handler, t2, 1, delete);
    let t3 = t2.push(kept.answer(delete));
    assert(t3.skip(1)[0] == t3[1]);
    assert(t3.skip(1).skip(1)[0] == t3[2]);
    run_ends(kept.after(delete), handler, t3, 0);
}

} // verus!
