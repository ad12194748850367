//! Storage that does what it is asked, and requests that are served over it to their end.

use vstd::prelude::*;
use vstd::set_lib::*;
use crate::clock::Instant;
use crate::order::{
    cut_lists_go_on, distinct, first_of, in_order, keeping_keeps_order, kept, kept_upto,
    lists_go_on_from_an_item, sorted, sorted_is_sorted, sorting_keeps_distinct, FilterView, Named,
};
use crate::store::{
    BlockSessionView, Bucket, BucketView, EffectView, ErrorKind, Object, ObjectView, OutcomeView,
    PageView, PayloadView, StepView, StorageErrorView, TapeView, UploadSessionView,
};
use crate::views::Text;

verus! {

/// What there is: what storage holds, and what an adapter remembers.
pub struct World {
    pub clock: Instant,
    pub buckets: Map<Text, BucketView>,
    pub objects: Map<(Text, Text), ObjectView>,
    pub versions: Map<(Text, Text, Text), ObjectView>,
    pub deletions: Map<Text, Instant>,
    pub sessions: Map<Text, BlockSessionView>,
    pub remembered_sessions: Map<Text, BlockSessionView>,
    pub blocks: Map<Text, Seq<(Text, Seq<u8>)>>,
    pub remembered_blocks: Map<Text, Seq<(Text, Seq<u8>)>>,
    pub uploads: Map<Text, UploadSessionView>,
    pub remembered_uploads: Map<Text, UploadSessionView>,
}

/// What a map holds under a key, where it does.
pub open spec fn held<K, V>(entries: Map<K, V>, key: K) -> Option<V> {
    if entries.contains_key(key) {
        Some(entries[key])
    } else {
        None
    }
}

/// A value, or a failure where there is none.
pub open spec fn or_missing<V>(value: Option<V>, kind: ErrorKind) -> Result<V, StorageErrorView> {
    match value {
        Some(value) => Ok(value),
        None => Err(StorageErrorView { kind, message: Seq::empty() }),
    }
}

impl World {
    /// Whether there are finitely many buckets and objects, each under its name.
    pub open spec fn sound(self) -> bool {
        &&& self.objects.dom().finite()
        &&& self.buckets.dom().finite()
        &&& forall|place: (Text, Text)| #[trigger]
            self.objects.contains_key(place) ==> self.objects[place].key == place.1
        &&& forall|name: Text| #[trigger]
            self.buckets.contains_key(name) ==> self.buckets[name].name == name
    }

    /// The object of a name.
    pub open spec fn object(self, bucket: Text, key: Text) -> Option<ObjectView> {
        held(self.objects, (bucket, key))
    }

    /// The objects of a bucket.
    pub open spec fn inside(self, bucket: Text) -> Set<ObjectView> {
        Set::new(
            |object: ObjectView|
                self.objects.contains_key((bucket, object.key)) && self.objects[(
                    bucket,
                    object.key,
                )] == object,
        )
    }

    /// The objects of a bucket under a prefix, in order.
    pub open spec fn shelf(self, bucket: Text, prefix: Option<Text>) -> Seq<ObjectView> {
        let all = sorted::<Object>(self.inside(bucket).to_seq());
        match prefix {
            Some(prefix) => kept::<Object>(all, FilterView::Under(prefix)),
            None => all,
        }
    }

    /// The buckets, in order.
    pub open spec fn all_buckets(self) -> Seq<BucketView> {
        sorted::<Bucket>(
            Set::new(
                |bucket: BucketView|
                    self.buckets.contains_key(bucket.name) && self.buckets[bucket.name] == bucket,
            ).to_seq(),
        )
    }

    /// A page of a listing: so many objects behind a marker, and the key of the last of them
    /// where there are more.
    pub open spec fn page(
        self,
        bucket: Text,
        prefix: Option<Text>,
        marker: Option<Text>,
        limit: int,
    ) -> PageView {
        let left = past(self.shelf(bucket, prefix), marker);
        PageView {
            objects: first_of(left, limit),
            prefixes: Seq::empty(),
            truncated: left.len() > limit,
            next_marker: if left.len() > limit {
                Some(left[limit - 1].key)
            } else {
                None
            },
        }
    }

    /// Whether there are objects in a bucket.
    pub open spec fn holds_objects(self, bucket: Text) -> bool {
        exists|key: Text| #[trigger] self.objects.contains_key((bucket, key))
    }

    /// Which failure the lack of an object is.
    pub open spec fn lack(self, bucket: Text) -> ErrorKind {
        if self.buckets.contains_key(bucket) {
            ErrorKind::KeyNotFound
        } else {
            ErrorKind::BucketNotFound
        }
    }

    /// What comes of an effect.
    pub open spec fn answer(self, effect: EffectView) -> OutcomeView {
        match effect {
            EffectView::GetBucket(bucket) => OutcomeView::Bucket(
                or_missing(held(self.buckets, bucket), ErrorKind::BucketNotFound),
            ),
            EffectView::ListBuckets => OutcomeView::Buckets(Ok(self.all_buckets())),
            EffectView::ListObjects(bucket, prefix, _, marker, limit) => OutcomeView::Page(
                if self.buckets.contains_key(bucket) {
                    Ok(self.page(bucket, prefix, marker, limit as int))
                } else {
                    Err(
                        StorageErrorView {
                            kind: ErrorKind::BucketNotFound,
                            message: Seq::empty(),
                        },
                    )
                },
            ),
            EffectView::GetObject(bucket, key) => OutcomeView::Object(
                or_missing(self.object(bucket, key), self.lack(bucket)),
            ),
            EffectView::GetVersion(bucket, key, version) => OutcomeView::Object(
                or_missing(held(self.versions, (bucket, key, version)), ErrorKind::NoSuchVersion),
            ),
            EffectView::GetRange(bucket, key, start, end) => OutcomeView::Payload(
                match self.object(bucket, key) {
                    Some(object) => Ok(
                        PayloadView {
                            object,
                            data: object.data.subrange(start as int, end + 1),
                        },
                    ),
                    None => Err(
                        StorageErrorView { kind: self.lack(bucket), message: Seq::empty() },
                    ),
                },
            ),
            EffectView::PutObjectIf(bucket, key, _, condition) => OutcomeView::Flag(
                Ok(condition.holds_of(self.object(bucket, key))),
            ),
            EffectView::ReplaceMetadata(bucket, key, observed, _) => OutcomeView::Flag(
                Ok(self.object(bucket, key) == Some(observed)),
            ),
            EffectView::DeleteObjectIf(bucket, key, condition) => OutcomeView::Flag(
                Ok(condition.holds_of(self.object(bucket, key))),
            ),
            EffectView::CreateBucket(bucket) => OutcomeView::Bucket(
                if self.buckets.contains_key(bucket) {
                    Err(
                        StorageErrorView {
                            kind: ErrorKind::BucketAlreadyExists,
                            message: Seq::empty(),
                        },
                    )
                } else {
                    Ok(new_bucket(bucket, self.clock))
                },
            ),
            EffectView::DeleteBucket(bucket) => OutcomeView::Done(
                if !self.buckets.contains_key(bucket) {
                    Err(
                        StorageErrorView {
                            kind: ErrorKind::BucketNotFound,
                            message: Seq::empty(),
                        },
                    )
                } else if self.holds_objects(bucket) {
                    Err(
                        StorageErrorView {
                            kind: ErrorKind::BucketNotEmpty,
                            message: Seq::empty(),
                        },
                    )
                } else {
                    Ok(())
                },
            ),
            EffectView::LoadDeletion(bucket) => OutcomeView::Deletion(
                Ok(held(self.deletions, bucket)),
            ),
            EffectView::RecallSession(key) => OutcomeView::Session(
                Ok(held(self.remembered_sessions, key)),
            ),
            EffectView::LoadSession(key) => OutcomeView::Session(Ok(held(self.sessions, key))),
            EffectView::RecallBlocks(key) => OutcomeView::Blocks(
                Ok(held(self.remembered_blocks, key)),
            ),
            EffectView::LoadBlocks(key) => OutcomeView::Blocks(Ok(held(self.blocks, key))),
            EffectView::TakeUpload(id) => OutcomeView::Upload(
                Ok(held(self.remembered_uploads, id)),
            ),
            EffectView::LoadUpload(id) => OutcomeView::Upload(Ok(held(self.uploads, id))),
            _ => OutcomeView::Done(Ok(())),
        }
    }

    /// What there is behind an effect.
    pub open spec fn after(self, effect: EffectView) -> World {
        match effect {
            EffectView::PutObject(bucket, key, object) => self.with_object(bucket, key, object),
            EffectView::PutObjectIf(bucket, key, object, condition) => if condition.holds_of(
                self.object(bucket, key),
            ) {
                self.with_object(bucket, key, object)
            } else {
                self
            },
            EffectView::ReplaceMetadata(bucket, key, observed, updated) => if self.object(
                bucket,
                key,
            ) == Some(observed) {
                self.with_object(bucket, key, updated)
            } else {
                self
            },
            EffectView::DeleteObject(bucket, key) => self.without_object(bucket, key),
            EffectView::DeleteObjectIf(bucket, key, condition) => if condition.holds_of(
                self.object(bucket, key),
            ) {
                self.without_object(bucket, key)
            } else {
                self
            },
            EffectView::DeleteVersion(bucket, key, version) => World {
                versions: self.versions.remove((bucket, key, version)),
                ..self
            },
            EffectView::CreateBucket(bucket) => if self.buckets.contains_key(bucket) {
                self
            } else {
                World { buckets: self.buckets.insert(bucket, new_bucket(bucket, self.clock)), ..self }
            },
            EffectView::DeleteBucket(bucket) => if self.holds_objects(bucket) {
                self
            } else {
                World { buckets: self.buckets.remove(bucket), ..self }
            },
            EffectView::EnableVersioning(bucket) => self.changed_bucket(
                bucket,
                BucketView { versioning_enabled: true, ..self.buckets[bucket] },
            ),
            EffectView::SuspendVersioning(bucket) => self.changed_bucket(
                bucket,
                BucketView { versioning_enabled: false, ..self.buckets[bucket] },
            ),
            EffectView::UpdateBucketMetadata(bucket, metadata) => self.changed_bucket(
                bucket,
                BucketView { metadata, ..self.buckets[bucket] },
            ),
            EffectView::SaveDeletion(bucket, at) => World {
                deletions: self.deletions.insert(bucket, at),
                ..self
            },
            EffectView::DropDeletion(bucket) => World {
                deletions: self.deletions.remove(bucket),
                ..self
            },
            EffectView::SaveSession(key, session) => World {
                sessions: self.sessions.insert(key, session),
                ..self
            },
            EffectView::DropSession(key) => World { sessions: self.sessions.remove(key), ..self },
            EffectView::RememberSession(key, session) => World {
                remembered_sessions: self.remembered_sessions.insert(key, session),
                ..self
            },
            EffectView::ForgetSession(key) => World {
                remembered_sessions: self.remembered_sessions.remove(key),
                ..self
            },
            EffectView::SaveBlocks(key, blocks) => World {
                blocks: self.blocks.insert(key, blocks),
                ..self
            },
            EffectView::RememberBlocks(key, blocks) => World {
                remembered_blocks: self.remembered_blocks.insert(key, blocks),
                ..self
            },
            EffectView::TakeUpload(id) => World {
                remembered_uploads: self.remembered_uploads.remove(id),
                ..self
            },
            EffectView::RememberUpload(id, session) => World {
                remembered_uploads: self.remembered_uploads.insert(id, session),
                ..self
            },
            EffectView::SaveUpload(id, session) => World {
                uploads: self.uploads.insert(id, session),
                ..self
            },
            EffectView::DropUpload(id) => World { uploads: self.uploads.remove(id), ..self },
            _ => self,
        }
    }

    /// The same with an object in its place.
    pub open spec fn with_object(self, bucket: Text, key: Text, object: ObjectView) -> World {
        World { objects: self.objects.insert((bucket, key), object), ..self }
    }

    /// The same without an object.
    pub open spec fn without_object(self, bucket: Text, key: Text) -> World {
        World { objects: self.objects.remove((bucket, key)), ..self }
    }

    /// The same with another bucket of a name that is there.
    pub open spec fn changed_bucket(self, name: Text, bucket: BucketView) -> World {
        if self.buckets.contains_key(name) {
            World { buckets: self.buckets.insert(name, bucket), ..self }
        } else {
            self
        }
    }
}

/// A bucket that was just created.
pub open spec fn new_bucket(name: Text, created_at: Instant) -> BucketView {
    BucketView {
        name,
        created_at,
        versioning_enabled: false,
        metadata: Seq::empty(),
    }
}

/// The part of a list in order that comes after a marker.
pub open spec fn past(objects: Seq<ObjectView>, marker: Option<Text>) -> Seq<ObjectView> {
    match marker {
        Some(marker) => kept::<Object>(objects, FilterView::After(marker)),
        None => objects,
    }
}

/// A handler's run, of at most so many effects: what there is behind it, and where it ends.
#[verifier::opaque]
pub open spec fn run(
    world: World,
    handler: spec_fn(TapeView) -> StepView,
    tape: TapeView,
    effects: nat,
) -> (World, StepView)
    decreases effects,
{
    match handler(tape) {
        StepView::Perform(effect) => if effects == 0 {
            (world, handler(tape))
        } else {
            run(
                world.after(effect),
                handler,
                tape.push(world.answer(effect)),
                (effects - 1) as nat,
            )
        },
        step => (world, step),
    }
}

/// Whether a handler's run leads from one state to the next with the outcome at a place of the
/// tape.
pub open spec fn leads(
    handler: spec_fn(TapeView) -> StepView,
    worlds: Seq<World>,
    tape: TapeView,
    i: int,
) -> bool {
    handler(tape.take(i)) matches StepView::Perform(effect) && worlds[i].answer(effect) == tape[i]
        && worlds[i].after(effect) == worlds[i + 1]
}

/// A run goes through the states that its effects lead to.
pub proof fn run_follows(
    handler: spec_fn(TapeView) -> StepView,
    worlds: Seq<World>,
    tape: TapeView,
    effects: nat,
    n: int,
)
    requires
        worlds.len() == tape.len() + 1,
        0 <= n <= tape.len(),
        effects >= tape.len(),
        forall|i: int| 0 <= i < tape.len() ==> #[trigger] leads(handler, worlds, tape, i),
    ensures
        run(worlds[0], handler, Seq::empty(), effects) == run(
            worlds[n],
            handler,
            tape.take(n),
            (effects - n) as nat,
        ),
    decreases n,
{
    assert(tape.take(0) =~= Seq::empty());
    if n > 0 {
        run_follows(handler, worlds, tape, effects, n - 1);
        assert(leads(handler, worlds, tape, n - 1));
        assert(tape.take(n) =~= tape.take(n - 1).push(tape[n - 1]));
        reveal_with_fuel(run, 2);
    }
}

/// A run whose effects lead to a reply ends with that reply.
pub proof fn run_replies(
    handler: spec_fn(TapeView) -> StepView,
    worlds: Seq<World>,
    tape: TapeView,
    effects: nat,
)
    requires
        worlds.len() == tape.len() + 1,
        effects >= tape.len(),
        forall|i: int| 0 <= i < tape.len() ==> #[trigger] leads(handler, worlds, tape, i),
        !(handler(tape) is Perform),
    ensures
        run(worlds[0], handler, Seq::empty(), effects) == (worlds[tape.len() as int], handler(tape)),
{
    run_follows(handler, worlds, tape, effects, tape.len() as int);
    assert(tape.take(tape.len() as int) =~= tape);
    reveal(run);
}

/// A run behind some outcomes is the run of what the handler does there.
pub proof fn run_behind(
    world: World,
    handler: spec_fn(TapeView) -> StepView,
    rest: spec_fn(TapeView) -> StepView,
    head: TapeView,
    tape: TapeView,
    effects: nat,
)
    requires
        forall|tape: TapeView| #[trigger] handler(head + tape) == rest(tape),
    ensures
        run(world, handler, head + tape, effects) == run(world, rest, tape, effects),
    decreases effects,
{
    reveal(run);
    assert(handler(head + tape) == rest(tape));
    if let StepView::Perform(effect) = rest(tape) {
        if effects > 0 {
            let outcome = world.answer(effect);
            assert((head + tape).push(outcome) =~= head + tape.push(outcome));
            run_behind(
                world.after(effect),
                handler,
                rest,
                head,
                tape.push(outcome),
                (effects - 1) as nat,
            );
        }
    }
}

/// A tape that starts with an outcome.
pub open spec fn led(first: OutcomeView, rest: TapeView) -> TapeView {
    seq![first] + rest
}

/// What a tape starts with, and what is behind it.
pub broadcast proof fn led_is_read(first: OutcomeView, rest: TapeView)
    ensures
        #![trigger led(first, rest)]
        led(first, rest).len() == rest.len() + 1,
        led(first, rest)[0] == first,
        led(first, rest).skip(1) == rest,
{
    assert(led(first, rest).skip(1) =~= rest);
}

/// Where the handler asks for an effect, its run goes on as that of what it does behind the
/// outcome.
pub proof fn run_steps(
    world: World,
    handler: spec_fn(TapeView) -> StepView,
    effect: EffectView,
    rest: spec_fn(TapeView) -> StepView,
    effects: nat,
)
    requires
        handler(Seq::empty()) == StepView::Perform(effect),
        effects > 0,
        forall|tape: TapeView| #[trigger]
            handler(led(world.answer(effect), tape)) == rest(tape),
    ensures
        run(world, handler, Seq::empty(), effects) == run(
            world.after(effect),
            rest,
            Seq::empty(),
            (effects - 1) as nat,
        ),
{
    let outcome = world.answer(effect);
    let head = seq![outcome];
    reveal_with_fuel(run, 2);
    assert(Seq::<OutcomeView>::empty().push(outcome) =~= head + Seq::<OutcomeView>::empty());
    assert forall|tape: TapeView| #[trigger] handler(head + tape) == rest(tape) by {
        assert(handler(led(outcome, tape)) == rest(tape));
    }
    run_behind(
        world.after(effect),
        handler,
        rest,
        head,
        Seq::empty(),
        (effects - 1) as nat,
    );
}

/// Where the handler asks for nothing, its run is over.
pub proof fn run_stops(world: World, handler: spec_fn(TapeView) -> StepView, effects: nat)
    requires
        !(handler(Seq::empty()) is Perform),
    ensures
        run(world, handler, Seq::empty(), effects) == (world, handler(Seq::empty())),
{
    reveal(run);
}

/// The runs of two handlers that do the same are the same.
pub proof fn runs_agree(
    world: World,
    handler: spec_fn(TapeView) -> StepView,
    other: spec_fn(TapeView) -> StepView,
    effects: nat,
)
    requires
        forall|tape: TapeView| #[trigger] handler(tape) == other(tape),
    ensures
        run(world, handler, Seq::empty(), effects) == run(world, other, Seq::empty(), effects),
{
    assert forall|tape: TapeView| #[trigger] handler(Seq::empty() + tape) == other(tape) by {
        assert(Seq::<OutcomeView>::empty() + tape =~= tape);
    }
    assert(Seq::<OutcomeView>::empty() + Seq::<OutcomeView>::empty() =~= Seq::empty());
    run_behind(world, handler, other, Seq::empty(), Seq::empty(), effects);
}

/// Whether a run ends with a status, and what there is then.
pub open spec fn ends(outcome: (World, StepView), world: World, status: u16) -> bool {
    outcome.0 == world && (outcome.1 matches StepView::Reply(reply) && reply.status == status)
}

// ---------------------------------------------------------------------------
// Listings

/// A list of a finite set has each of its items once.
pub proof fn to_seq_has_no_doubles<A>(items: Set<A>)
    requires
        items.finite(),
    ensures
        items.to_seq().no_duplicates(),
        items.to_seq().to_set() == items,
    decreases items.len(),
{
    items.lemma_to_seq_to_set_id();
    if items.len() > 0 {
        let x = items.choose();
        let rest = items.remove(x);
        to_seq_has_no_doubles(rest);
        assert(!rest.to_seq().contains(x)) by {
            assert(rest.to_seq().to_set().contains(x) <==> rest.to_seq().contains(x));
        }
    }
}

/// The shelf of a bucket holds its objects under the prefix and nothing else, in order and
/// each once.
pub proof fn shelves_hold_the_objects(world: World, bucket: Text, prefix: Option<Text>)
    requires
        world.sound(),
    ensures
        in_order::<Object>(world.shelf(bucket, prefix)),
        distinct::<Object>(world.shelf(bucket, prefix)),
        forall|object: ObjectView| #[trigger]
            world.shelf(bucket, prefix).contains(object) <==> world.object(bucket, object.key)
                == Some(object) && (prefix matches Some(prefix) ==> crate::text::starts_with(
                object.key,
                prefix,
            )),
{
    let inside = world.inside(bucket);
    assert(inside.subset_of(world.objects.values())) by {
        assert forall|object: ObjectView| inside.contains(object) implies #[trigger]
            world.objects.values().contains(object) by {
            assert(world.objects.contains_key((bucket, object.key)));
            assert(world.objects[(bucket, object.key)] == object);
        }
    }
    world.objects.lemma_values_len();
    lemma_len_subset(inside, world.objects.values());
    to_seq_has_no_doubles(inside);
    let all = inside.to_seq();
    assert forall|i: int, j: int| 0 <= i < j < all.len() implies (#[trigger] all[i]).key != (
    #[trigger] all[j]).key by {
        assert(all.to_set().contains(all[i]));
        assert(all.to_set().contains(all[j]));
    }
    sorted_is_sorted::<Object>(all);
    sorting_keeps_distinct::<Object>(all);
    let ordered = sorted::<Object>(all);
    assert forall|object: ObjectView| #[trigger] ordered.contains(object) <==> inside.contains(
        object,
    ) by {
        all.to_multiset_ensures();
        ordered.to_multiset_ensures();
        assert(all.to_multiset().count(object) > 0 <==> all.contains(object));
        assert(ordered.to_multiset().count(object) > 0 <==> ordered.contains(object));
        assert(all.to_set().contains(object) <==> all.contains(object));
    }
    if let Some(prefix) = prefix {
        keeping_keeps_order::<Object>(ordered, FilterView::Under(prefix));
        assert forall|object: ObjectView| #[trigger]
            world.shelf(bucket, Some(prefix)).contains(object) <==> ordered.contains(object)
                && crate::text::starts_with(object.key, prefix) by {
            kept_contains::<Object>(ordered, FilterView::Under(prefix), object);
        }
    }
}

/// What a filter keeps of a list are its items that the filter keeps.
pub proof fn kept_holds<T: Named>(items: Seq<T::V>, filter: FilterView, n: int)
    requires
        0 <= n <= items.len(),
    ensures
        forall|q: int|
            0 <= q < kept_upto::<T>(items, filter, n).len() ==> items.contains(
                #[trigger] kept_upto::<T>(items, filter, n)[q],
            ) && filter.keeps(T::key(kept_upto::<T>(items, filter, n)[q])),
        forall|k: int|
            0 <= k < n && filter.keeps(T::key(#[trigger] items[k])) ==> kept_upto::<T>(
                items,
                filter,
                n,
            ).contains(items[k]),
    decreases n,
{
    if n > 0 {
        kept_holds::<T>(items, filter, n - 1);
        let before = kept_upto::<T>(items, filter, n - 1);
        let out = kept_upto::<T>(items, filter, n);
        assert forall|k: int| 0 <= k < n && filter.keeps(T::key(#[trigger] items[k])) implies
            out.contains(items[k]) by {
            if k == n - 1 {
                assert(out[out.len() - 1] == items[k]);
            } else {
                let q = choose|q: int| 0 <= q < before.len() && before[q] == items[k];
                assert(out[q] == items[k]);
            }
        }
        assert forall|q: int| 0 <= q < out.len() implies items.contains(#[trigger] out[q])
            && filter.keeps(T::key(out[q])) by {
            if q < before.len() {
                assert(out[q] == before[q]);
            } else {
                assert(out[q] == items[n - 1]);
            }
        }
    }
}

/// An item is kept exactly if it is in the list and the filter keeps it.
pub proof fn kept_contains<T: Named>(items: Seq<T::V>, filter: FilterView, item: T::V)
    ensures
        kept::<T>(items, filter).contains(item) <==> items.contains(item) && filter.keeps(
            T::key(item),
        ),
{
    kept_holds::<T>(items, filter, items.len() as int);
    let out = kept::<T>(items, filter);
    if out.contains(item) {
        let q = choose|q: int| 0 <= q < out.len() && out[q] == item;
        assert(out[q] == item);
    }
    if items.contains(item) && filter.keeps(T::key(item)) {
        let k = choose|k: int| 0 <= k < items.len() && items[k] == item;
        assert(items[k] == item);
    }
}

/// What is kept of two lists in a row is what is kept of each.
pub proof fn kept_of_both<T: Named>(a: Seq<T::V>, b: Seq<T::V>, filter: FilterView, n: int)
    requires
        0 <= n <= a.len() + b.len(),
    ensures
        kept_upto::<T>(a + b, filter, n) == if n <= a.len() {
            kept_upto::<T>(a, filter, n)
        } else {
            kept::<T>(a, filter) + kept_upto::<T>(b, filter, n - a.len())
        },
    decreases n,
{
    if n > 0 {
        kept_of_both::<T>(a, b, filter, n - 1);
        if n <= a.len() {
            assert((a + b)[n - 1] == a[n - 1]);
        } else {
            assert((a + b)[n - 1] == b[n - 1 - a.len()]);
            assert(kept::<T>(a, filter) + kept_upto::<T>(b, filter, 0) =~= kept::<T>(a, filter));
            assert(kept_upto::<T>(a + b, filter, n) =~= kept::<T>(a, filter) + kept_upto::<T>(
                b,
                filter,
                n - a.len(),
            ));
        }
    }
}

/// The outcomes of a listing that is followed page by page, from a marker to the end.
pub open spec fn pages(
    shelf: Seq<ObjectView>,
    marker: Option<Text>,
    limit: nat,
    fuel: nat,
) -> Seq<PageView>
    decreases fuel,
{
    let left = past(shelf, marker);
    if left.len() > limit && fuel > 0 {
        seq![
            PageView {
                objects: first_of(left, limit as int),
                prefixes: Seq::empty(),
                truncated: true,
                next_marker: Some(left[limit - 1].key),
            },
        ] + pages(shelf, Some(left[limit - 1].key), limit, (fuel - 1) as nat)
    } else {
        seq![
            PageView {
                objects: left,
                prefixes: Seq::empty(),
                truncated: false,
                next_marker: None,
            },
        ]
    }
}

/// The page behind a marker leads to what is left.
pub proof fn pages_go_on(shelf: Seq<ObjectView>, marker: Option<Text>, limit: int)
    requires
        in_order::<Object>(shelf),
        distinct::<Object>(shelf),
        0 < limit < past(shelf, marker).len(),
    ensures
        past(shelf, Some(past(shelf, marker)[limit - 1].key)) == past(shelf, marker).skip(limit),
        first_of(past(shelf, marker), limit) + past(
            shelf,
            Some(past(shelf, marker)[limit - 1].key),
        ) == past(shelf, marker),
{
    match marker {
        Some(marker) => cut_lists_go_on::<Object>(shelf, marker, limit - 1),
        None => lists_go_on_from_an_item::<Object>(shelf, limit - 1),
    }
    let left = past(shelf, marker);
    assert(left.subrange(0, limit) + left.skip(limit) =~= left);
}

} // verus!
