//! The order of texts by code point, and lists in that order.

use vstd::prelude::*;
use vstd::seq_lib::*;
use crate::table::{get, with, Copied, Table};
use crate::text::{begins, characters, starts_with};
use crate::views::{each, each_empty, each_push};

verus! {

/// Whether `a` comes before `b`, where they agree before place `i`.
pub open spec fn precedes_from(a: Seq<char>, b: Seq<char>, i: int) -> bool
    decreases b.len() - i,
{
    if i >= b.len() {
        false
    } else if i >= a.len() {
        true
    } else if a[i] == b[i] {
        precedes_from(a, b, i + 1)
    } else {
        (a[i] as int) < (b[i] as int)
    }
}

/// Whether `a` comes before `b` in the order by code point.
pub open spec fn precedes(a: Seq<char>, b: Seq<char>) -> bool {
    precedes_from(a, b, 0)
}

fn code_point(c: char) -> (r: u32)
    ensures
        r == c as int,
{
    c as u32
}

pub fn before(a: &str, b: &str) -> (r: bool)
    ensures
        r == precedes(a@, b@),
{
    let x = characters(a);
    let y = characters(b);
    let mut i: usize = 0;
    while i < y.len()
        invariant
            x@ == a@,
            y@ == b@,
            i <= y.len(),
            precedes(a@, b@) == precedes_from(a@, b@, i as int),
        decreases y.len() - i,
    {
        if i >= x.len() {
            return true;
        }
        let p: char = x[i];
        let q: char = y[i];
        if p != q {
            return code_point(p) < code_point(q);
        }
        i += 1;
    }
    false
}

proof fn precedes_chain(a: Seq<char>, b: Seq<char>, c: Seq<char>, i: int)
    requires
        0 <= i,
        !precedes_from(b, a, i),
        !precedes_from(c, b, i),
    ensures
        !precedes_from(c, a, i),
    decreases a.len() - i,
{
    if i < a.len() && i < b.len() && i < c.len() {
        assert((a[i] as int) == (b[i] as int) ==> a[i] == b[i]);
        if a[i] == b[i] && b[i] == c[i] {
            precedes_chain(a, b, c, i + 1);
        }
    }
}

proof fn precedes_one_way(a: Seq<char>, b: Seq<char>, i: int)
    requires
        0 <= i,
        precedes_from(a, b, i),
    ensures
        !precedes_from(b, a, i),
    decreases b.len() - i,
{
    if i < a.len() && i < b.len() && a[i] == b[i] {
        precedes_one_way(a, b, i + 1);
    }
}

/// A type whose values have a name to be listed by.
pub trait Named: View + Sized {
    spec fn key(v: Self::V) -> Seq<char>;

    fn name(&self) -> (r: &str)
        ensures
            r@ == Self::key(self@),
    ;
}

impl Named for String {
    open spec fn key(v: Seq<char>) -> Seq<char> {
        v
    }

    fn name(&self) -> (r: &str) {
        self.as_str()
    }
}

impl Named for (String, Vec<u8>) {
    open spec fn key(v: (Seq<char>, Seq<u8>)) -> Seq<char> {
        v.0
    }

    fn name(&self) -> (r: &str) {
        self.0.as_str()
    }
}

/// A list of texts.
pub struct Names {
    pub items: Vec<String>,
}

impl View for Names {
    type V = Seq<Seq<char>>;

    open spec fn view(&self) -> Seq<Seq<char>> {
        each(self.items@)
    }
}

impl Names {
    pub fn new() -> (r: Self)
        ensures
            r@ == Seq::<Seq<char>>::empty(),
    {
        proof {
            each_empty::<String>();
        }
        Names { items: Vec::new() }
    }

    pub fn push(&mut self, item: String)
        ensures
            final(self)@ == old(self)@.push(item@),
    {
        proof {
            each_push(self.items@, item);
        }
        self.items.push(item);
    }

    pub fn sort(self) -> (r: Self)
        ensures
            r@ == sorted::<String>(self@),
    {
        Names { items: sort(self.items) }
    }
}

impl Copied for Names {
    fn copied(&self) -> (r: Self) {
        let mut items: Vec<String> = Vec::new();
        let mut i: usize = 0;
        while i < self.items.len()
            invariant
                i <= self.items.len(),
                items.len() == i,
                forall|k: int| 0 <= k < i ==> (#[trigger] items@[k])@ == self.items@[k]@,
            decreases self.items.len() - i,
        {
            items.push(self.items[i].clone());
            i += 1;
        }
        let r = Names { items };
        assert(r@ =~= self@);
        r
    }
}

/// Lists by text, with one more item in the list of `key`.
pub open spec fn filed(
    groups: Seq<(Seq<char>, Seq<Seq<char>>)>,
    key: Seq<char>,
    item: Seq<char>,
) -> Seq<(Seq<char>, Seq<Seq<char>>)> {
    with(groups, key, listed(groups, key).push(item))
}

/// The list of a key, which is empty where there is none.
pub open spec fn listed(groups: Seq<(Seq<char>, Seq<Seq<char>>)>, key: Seq<char>) -> Seq<Seq<char>> {
    match get(groups, key) {
        Some(items) => items,
        None => Seq::empty(),
    }
}

pub fn list_of(groups: &Table<Names>, key: &str) -> (r: Names)
    ensures
        r@ == listed(groups@, key@),
{
    match groups.get(key) {
        Some(names) => names.copied(),
        None => Names::new(),
    }
}

pub fn file(groups: &mut Table<Names>, key: &str, item: String)
    ensures
        final(groups)@ == filed(old(groups)@, key@, item@),
{
    let mut names = list_of(groups, key);
    names.push(item);
    groups.insert(key, names);
}

/// The keys of a table.
pub open spec fn keys<V>(entries: Seq<(Seq<char>, V)>) -> Seq<Seq<char>> {
    Seq::new(entries.len(), |i: int| entries[i].0)
}

pub fn keys_of<T: View>(table: &Table<T>) -> (r: Names)
    ensures
        r@ == keys(table@),
{
    let mut r = Names::new();
    let mut i: usize = 0;
    while i < table.entries.len()
        invariant
            i <= table.entries.len(),
            r@ =~= keys(table@).subrange(0, i as int),
        decreases table.entries.len() - i,
    {
        assert(table@[i as int] == table.entries@[i as int]@);
        r.push(table.entries[i].0.clone());
        i += 1;
    }
    assert(r@ =~= keys(table@));
    r
}

/// The first place, at or after `i`, whose item comes after `item`.
pub open spec fn place_from<T: Named>(items: Seq<T::V>, item: T::V, i: int) -> int
    decreases items.len() - i,
{
    if i >= items.len() {
        items.len() as int
    } else if precedes(T::key(item), T::key(items[i])) {
        i
    } else {
        place_from::<T>(items, item, i + 1)
    }
}

/// The items with one more, behind those that do not come after it.
pub open spec fn inserted<T: Named>(items: Seq<T::V>, item: T::V) -> Seq<T::V> {
    items.insert(place_from::<T>(items, item, 0), item)
}

/// The first `i` items in the order of their names.
pub open spec fn sorted_upto<T: Named>(items: Seq<T::V>, i: int) -> Seq<T::V>
    decreases i,
{
    if i <= 0 {
        Seq::empty()
    } else {
        inserted::<T>(sorted_upto::<T>(items, i - 1), items[i - 1])
    }
}

/// The items in the order of their names; items of one name stay in their order.
pub open spec fn sorted<T: Named>(items: Seq<T::V>) -> Seq<T::V> {
    sorted_upto::<T>(items, items.len() as int)
}

pub fn sort<T: Named>(items: Vec<T>) -> (r: Vec<T>)
    ensures
        each(r@) == sorted::<T>(each(items@)),
{
    let ghost all = each(items@);
    let mut rest = items;
    let mut out: Vec<T> = Vec::new();
    let ghost mut i: int = 0;
    proof {
        each_empty::<T>();
        assert(each(rest@) =~= all.subrange(0, all.len() as int));
    }
    while rest.len() > 0
        invariant
            0 <= i <= all.len(),
            each(rest@) == all.subrange(i, all.len() as int),
            each(out@) == sorted_upto::<T>(all, i),
        decreases rest.len(),
    {
        let ghost left = each(rest@);
        assert(rest@[0]@ == left[0]);
        let item = rest.remove(0);
        assert(each(rest@) =~= left.subrange(1, left.len() as int));
        assert(left.subrange(1, left.len() as int) =~= all.subrange(i + 1, all.len() as int));
        let mut p: usize = 0;
        while p < out.len() && !before(item.name(), out[p].name())
            invariant
                p <= out.len(),
                place_from::<T>(each(out@), item@, 0) == place_from::<T>(
                    each(out@),
                    item@,
                    p as int,
                ),
            decreases out.len() - p,
        {
            assert(each(out@)[p as int] == out@[p as int]@);
            p += 1;
        }
        proof {
            if p < out.len() {
                assert(each(out@)[p as int] == out@[p as int]@);
            }
            assert(each(out@.insert(p as int, item)) =~= each(out@).insert(p as int, item@));
        }
        out.insert(p, item);
        proof {
            i = i + 1;
        }
    }
    proof {
        assert(each(rest@).len() == all.len() - i);
    }
    out
}

/// Whether no item comes before an earlier one.
pub open spec fn in_order<T: Named>(items: Seq<T::V>) -> bool {
    forall|i: int, j: int|
        0 <= i < j < items.len() ==> !precedes(
            T::key(#[trigger] items[j]),
            T::key(#[trigger] items[i]),
        )
}

proof fn place_splits<T: Named>(items: Seq<T::V>, item: T::V, i: int)
    requires
        0 <= i <= items.len(),
    ensures
        i <= place_from::<T>(items, item, i) <= items.len(),
        forall|k: int|
            i <= k < place_from::<T>(items, item, i) ==> !precedes(
                T::key(item),
                T::key(#[trigger] items[k]),
            ),
        place_from::<T>(items, item, i) < items.len() ==> precedes(
            T::key(item),
            T::key(items[place_from::<T>(items, item, i)]),
        ),
    decreases items.len() - i,
{
    if i < items.len() && !precedes(T::key(item), T::key(items[i])) {
        place_splits::<T>(items, item, i + 1);
    }
}

proof fn inserted_in_order<T: Named>(items: Seq<T::V>, item: T::V)
    requires
        in_order::<T>(items),
    ensures
        in_order::<T>(inserted::<T>(items, item)),
{
    place_splits::<T>(items, item, 0);
    let p = place_from::<T>(items, item, 0);
    let out = inserted::<T>(items, item);
    assert forall|i: int, j: int| 0 <= i < j < out.len() implies !precedes(
        T::key(#[trigger] out[j]),
        T::key(#[trigger] out[i]),
    ) by {
        let a = if i < p {
            i
        } else {
            i - 1
        };
        let b = if j < p {
            j
        } else {
            j - 1
        };
        if i != p {
            assert(out[i] == items[a]);
        }
        if j != p {
            assert(out[j] == items[b]);
        }
        if i != p && j != p {
            assert(!precedes(T::key(items[b]), T::key(items[a])));
        } else if i == p {
            precedes_one_way(T::key(item), T::key(items[p]), 0);
            if b != p {
                assert(!precedes(T::key(items[b]), T::key(items[p])));
                precedes_chain(T::key(item), T::key(items[p]), T::key(items[b]), 0);
            }
        }
    }
}

proof fn sorted_upto_is_sorted<T: Named>(items: Seq<T::V>, i: int)
    requires
        0 <= i <= items.len(),
    ensures
        in_order::<T>(sorted_upto::<T>(items, i)),
        sorted_upto::<T>(items, i).to_multiset() == items.subrange(0, i).to_multiset(),
    decreases i,
{
    if i > 0 {
        sorted_upto_is_sorted::<T>(items, i - 1);
        let before = sorted_upto::<T>(items, i - 1);
        inserted_in_order::<T>(before, items[i - 1]);
        place_splits::<T>(before, items[i - 1], 0);
        broadcast use group_to_multiset_ensures;

        assert(items.subrange(0, i) =~= items.subrange(0, i - 1).push(items[i - 1]));
        to_multiset_insert(before, place_from::<T>(before, items[i - 1], 0), items[i - 1]);
    } else {
        assert(items.subrange(0, i) =~= sorted_upto::<T>(items, i));
    }
}

proof fn to_multiset_insert<V>(items: Seq<V>, p: int, item: V)
    requires
        0 <= p <= items.len(),
    ensures
        items.insert(p, item).to_multiset() == items.to_multiset().insert(item),
{
    broadcast use group_to_multiset_ensures;

    let out = items.insert(p, item);
    assert(out.remove(p) =~= items);
    assert(out.to_multiset() =~= items.to_multiset().insert(item)) by {
        assert(out.to_multiset().remove(out[p]) == items.to_multiset());
        assert(out.to_multiset().count(item) > 0);
    }
}

/// Sorting puts the same items in order.
pub proof fn sorted_is_sorted<T: Named>(items: Seq<T::V>)
    ensures
        in_order::<T>(sorted::<T>(items)),
        sorted::<T>(items).to_multiset() == items.to_multiset(),
{
    sorted_upto_is_sorted::<T>(items, items.len() as int);
    assert(items.subrange(0, items.len() as int) =~= items);
}

/// Which names to keep in a list.
pub enum Filter<'a> {
    /// Those that start with a text.
    Under(&'a str),
    /// Those that do not start with a text.
    Outside(&'a str),
    /// Those that do not come before a text.
    From(&'a str),
    /// Those that come after a text.
    After(&'a str),
}

/// A filter over characters.
pub enum FilterView {
    Under(Seq<char>),
    Outside(Seq<char>),
    From(Seq<char>),
    After(Seq<char>),
}

impl<'a> View for Filter<'a> {
    type V = FilterView;

    open spec fn view(&self) -> FilterView {
        match self {
            Filter::Under(p) => FilterView::Under(p@),
            Filter::Outside(p) => FilterView::Outside(p@),
            Filter::From(p) => FilterView::From(p@),
            Filter::After(p) => FilterView::After(p@),
        }
    }
}

impl FilterView {
    pub open spec fn keeps(self, name: Seq<char>) -> bool {
        match self {
            FilterView::Under(p) => starts_with(name, p),
            FilterView::Outside(p) => !starts_with(name, p),
            FilterView::From(p) => !precedes(name, p),
            FilterView::After(p) => precedes(p, name),
        }
    }
}

impl<'a> Filter<'a> {
    pub fn keeps(&self, name: &str) -> (r: bool)
        ensures
            r == self@.keeps(name@),
    {
        match self {
            Filter::Under(p) => begins(name, p),
            Filter::Outside(p) => !begins(name, p),
            Filter::From(p) => !before(name, p),
            Filter::After(p) => before(p, name),
        }
    }
}

/// The items before place `i` whose name a filter keeps.
pub open spec fn kept_upto<T: Named>(items: Seq<T::V>, filter: FilterView, i: int) -> Seq<T::V>
    decreases i,
{
    if i <= 0 {
        Seq::empty()
    } else if filter.keeps(T::key(items[i - 1])) {
        kept_upto::<T>(items, filter, i - 1).push(items[i - 1])
    } else {
        kept_upto::<T>(items, filter, i - 1)
    }
}

/// The items whose name a filter keeps.
pub open spec fn kept<T: Named>(items: Seq<T::V>, filter: FilterView) -> Seq<T::V> {
    kept_upto::<T>(items, filter, items.len() as int)
}

pub fn keep<T: Named>(items: Vec<T>, filter: &Filter) -> (r: Vec<T>)
    ensures
        each(r@) == kept::<T>(each(items@), filter@),
{
    let ghost all = each(items@);
    let mut out = items;
    let mut i: usize = 0;
    let ghost mut j: int = 0;
    assert(each(out@) =~= kept_upto::<T>(all, filter@, 0) + all.subrange(0, all.len() as int));
    while i < out.len()
        invariant
            0 <= j <= all.len(),
            each(out@) == kept_upto::<T>(all, filter@, j) + all.subrange(j, all.len() as int),
            i == kept_upto::<T>(all, filter@, j).len(),
        decreases out.len() - i,
    {
        let ghost now = each(out@);
        let ghost rest = all.subrange(j, all.len() as int);
        assert(now[i as int] == rest[0]);
        assert(out@[i as int]@ == all[j]);
        assert(all.subrange(j + 1, all.len() as int) =~= rest.skip(1));
        if filter.keeps(out[i].name()) {
            i += 1;
            assert(now =~= kept_upto::<T>(all, filter@, j + 1) + rest.skip(1));
        } else {
            let _ = out.remove(i);
            proof {
                assert(each(out@) =~= now.remove(i as int));
                assert(now.remove(i as int) =~= kept_upto::<T>(all, filter@, j + 1) + rest.skip(1));
            }
        }
        proof {
            j = j + 1;
        }
    }
    proof {
        assert(each(out@).len() == kept_upto::<T>(all, filter@, j).len() + (all.len() - j));
        assert(each(out@) =~= kept_upto::<T>(all, filter@, j));
    }
    out
}

/// The name of the item at place `n`, where there is one.
pub open spec fn name_at<T: Named>(items: Seq<T::V>, n: int) -> Option<Seq<char>> {
    if n < items.len() {
        Some(T::key(items[n]))
    } else {
        None
    }
}

/// The first `n` items, or all where there are fewer.
pub open spec fn first_of<V>(items: Seq<V>, n: int) -> Seq<V> {
    if n < items.len() {
        items.subrange(0, n)
    } else {
        items
    }
}

/// Cuts a list after `n` items and gives the name of the first item left out.
pub fn paged<T: Named>(items: Vec<T>, n: usize) -> (r: (Vec<T>, Option<String>))
    ensures
        each(r.0@) == first_of(each(items@), n as int),
        crate::views::seen(r.1) == name_at::<T>(each(items@), n as int),
{
    let ghost all = each(items@);
    let mut items = items;
    if n < items.len() {
        assert(items@[n as int]@ == all[n as int]);
        let next = items[n].name().to_owned();
        items.truncate(n);
        assert(each(items@) =~= all.subrange(0, n as int));
        (items, Some(next))
    } else {
        (items, None)
    }
}

// ---------------------------------------------------------------------------
// Pages of a list in order

/// Whether no two items have the same name.
pub open spec fn distinct<T: Named>(items: Seq<T::V>) -> bool {
    forall|i: int, j: int|
        0 <= i < j < items.len() ==> T::key(#[trigger] items[i]) != T::key(#[trigger] items[j])
}

proof fn precedes_either_way(a: Seq<char>, b: Seq<char>, i: int)
    requires
        0 <= i <= a.len(),
        i <= b.len(),
        a != b,
        a.subrange(0, i) == b.subrange(0, i),
    ensures
        precedes_from(a, b, i) || precedes_from(b, a, i),
    decreases b.len() - i,
{
    if i < a.len() && i < b.len() {
        if a[i] == b[i] {
            assert(a.subrange(0, i + 1) =~= a.subrange(0, i).push(a[i]));
            assert(b.subrange(0, i + 1) =~= b.subrange(0, i).push(b[i]));
            precedes_either_way(a, b, i + 1);
        }
    } else if i == a.len() && i == b.len() {
        assert(a =~= a.subrange(0, i));
        assert(b =~= b.subrange(0, i));
    }
}

/// Of two different texts one comes before the other, and only one.
pub proof fn texts_are_in_order(a: Seq<char>, b: Seq<char>)
    requires
        a != b,
    ensures
        precedes(a, b) <==> !precedes(b, a),
{
    assert(a.subrange(0, 0) =~= b.subrange(0, 0));
    precedes_either_way(a, b, 0);
    if precedes(a, b) {
        precedes_one_way(a, b, 0);
    }
}

/// Nothing comes before itself.
pub proof fn nothing_precedes_itself(a: Seq<char>, i: int)
    requires
        0 <= i,
    ensures
        !precedes_from(a, a, i),
    decreases a.len() - i,
{
    if i < a.len() {
        nothing_precedes_itself(a, i + 1);
    }
}

proof fn kept_is_a_tail<T: Named>(items: Seq<T::V>, filter: FilterView, n: int, m: int)
    requires
        0 <= n <= items.len(),
        0 <= m <= items.len(),
        forall|i: int|
            0 <= i < items.len() ==> (filter.keeps(T::key(#[trigger] items[i])) <==> n <= i),
    ensures
        kept_upto::<T>(items, filter, m) == if m <= n {
            Seq::empty()
        } else {
            items.subrange(n, m)
        },
    decreases m,
{
    if m > 0 {
        kept_is_a_tail::<T>(items, filter, n, m - 1);
        assert(filter.keeps(T::key(items[m - 1])) <==> n <= m - 1);
        if m - 1 > n {
            assert(items.subrange(n, m) =~= items.subrange(n, m - 1).push(items[m - 1]));
        } else if m - 1 == n {
            assert(items.subrange(n, m) =~= Seq::<T::V>::empty().push(items[m - 1]));
        }
    }
}

/// What a list in order keeps from the name of an item on starts with that item, and what it
/// keeps behind the name starts with the next one.
pub proof fn lists_go_on_from_an_item<T: Named>(items: Seq<T::V>, n: int)
    requires
        in_order::<T>(items),
        distinct::<T>(items),
        0 <= n < items.len(),
    ensures
        kept::<T>(items, FilterView::From(T::key(items[n]))) == items.skip(n),
        kept::<T>(items, FilterView::After(T::key(items[n]))) == items.skip(n + 1),
{
    let name = T::key(items[n]);
    assert forall|i: int| 0 <= i < items.len() implies (precedes(T::key(#[trigger] items[i]), name)
        <==> i < n) && (precedes(name, T::key(items[i])) <==> n < i) by {
        if i < n {
            assert(!precedes(T::key(items[n]), T::key(items[i])));
            texts_are_in_order(T::key(items[i]), name);
        } else if i > n {
            assert(!precedes(T::key(items[i]), T::key(items[n])));
            assert(T::key(items[n]) != T::key(items[i]));
            texts_are_in_order(T::key(items[i]), name);
        } else {
            nothing_precedes_itself(name, 0);
        }
    }
    kept_is_a_tail::<T>(items, FilterView::From(name), n, items.len() as int);
    kept_is_a_tail::<T>(items, FilterView::After(name), n + 1, items.len() as int);
    assert(items.skip(n) =~= items.subrange(n, items.len() as int));
    assert(items.skip(n + 1) =~= if items.len() <= n + 1 {
        Seq::<T::V>::empty()
    } else {
        items.subrange(n + 1, items.len() as int)
    });
}

proof fn kept_upto_depends_on_front<T: Named>(
    a: Seq<T::V>,
    b: Seq<T::V>,
    filter: FilterView,
    m: int,
)
    requires
        0 <= m <= a.len(),
        m <= b.len(),
        forall|i: int| 0 <= i < m ==> #[trigger] a[i] == b[i],
    ensures
        kept_upto::<T>(a, filter, m) == kept_upto::<T>(b, filter, m),
    decreases m,
{
    if m > 0 {
        kept_upto_depends_on_front::<T>(a, b, filter, m - 1);
        assert(a[m - 1] == b[m - 1]);
    }
}

proof fn keeping_twice_upto<T: Named>(
    items: Seq<T::V>,
    wide: FilterView,
    narrow: FilterView,
    m: int,
)
    requires
        0 <= m <= items.len(),
        forall|name: Seq<char>| #[trigger] narrow.keeps(name) ==> wide.keeps(name),
    ensures
        kept::<T>(kept_upto::<T>(items, wide, m), narrow) == kept_upto::<T>(items, narrow, m),
    decreases m,
{
    if m > 0 {
        keeping_twice_upto::<T>(items, wide, narrow, m - 1);
        let before = kept_upto::<T>(items, wide, m - 1);
        if wide.keeps(T::key(items[m - 1])) {
            let more = before.push(items[m - 1]);
            kept_upto_depends_on_front::<T>(more, before, narrow, before.len() as int);
        }
        assert(narrow.keeps(T::key(items[m - 1])) ==> wide.keeps(T::key(items[m - 1])));
    }
}

/// The rest of a list in order: what is kept from the name of an item on, or behind it, is
/// the same whether the list was cut at an earlier name or not.
pub proof fn cut_lists_go_on<T: Named>(items: Seq<T::V>, from: Seq<char>, n: int)
    requires
        in_order::<T>(items),
        distinct::<T>(items),
    ensures
        ({
            let cut = kept::<T>(items, FilterView::From(from));
            0 <= n < cut.len() ==> kept::<T>(items, FilterView::From(T::key(cut[n]))) == cut.skip(n)
        }),
        ({
            let cut = kept::<T>(items, FilterView::After(from));
            0 <= n < cut.len() ==> kept::<T>(items, FilterView::After(T::key(cut[n]))) == cut.skip(
                n + 1,
            )
        }),
{
    let from_cut = kept::<T>(items, FilterView::From(from));
    keeping_keeps_order::<T>(items, FilterView::From(from));
    if 0 <= n < from_cut.len() {
        let place = T::key(from_cut[n]);
        kept_items_pass::<T>(items, FilterView::From(from), items.len() as int);
        assert forall|name: Seq<char>| #[trigger]
            FilterView::From(place).keeps(name) implies FilterView::From(from).keeps(name) by {
            precedes_chain(from, place, name, 0);
        }
        keeping_twice_upto::<T>(
            items,
            FilterView::From(from),
            FilterView::From(place),
            items.len() as int,
        );
        lists_go_on_from_an_item::<T>(from_cut, n);
    }
    let after_cut = kept::<T>(items, FilterView::After(from));
    keeping_keeps_order::<T>(items, FilterView::After(from));
    if 0 <= n < after_cut.len() {
        let place = T::key(after_cut[n]);
        kept_items_pass::<T>(items, FilterView::After(from), items.len() as int);
        assert forall|name: Seq<char>| #[trigger]
            FilterView::After(place).keeps(name) implies FilterView::After(from).keeps(name) by {
            precedes_one_way(place, name, 0);
            if !precedes(from, name) {
                precedes_chain(place, name, from, 0);
            }
        }
        keeping_twice_upto::<T>(
            items,
            FilterView::After(from),
            FilterView::After(place),
            items.len() as int,
        );
        lists_go_on_from_an_item::<T>(after_cut, n);
    }
}

proof fn kept_items_pass<T: Named>(items: Seq<T::V>, filter: FilterView, m: int)
    requires
        0 <= m <= items.len(),
    ensures
        forall|q: int|
            0 <= q < kept_upto::<T>(items, filter, m).len() ==> filter.keeps(
                T::key(#[trigger] kept_upto::<T>(items, filter, m)[q]),
            ),
    decreases m,
{
    if m > 0 {
        kept_items_pass::<T>(items, filter, m - 1);
        let before = kept_upto::<T>(items, filter, m - 1);
        let out = kept_upto::<T>(items, filter, m);
        assert forall|q: int| 0 <= q < out.len() implies filter.keeps(T::key(#[trigger] out[q])) by {
            if q < before.len() {
                assert(out[q] == before[q]);
            }
        }
    }
}

proof fn kept_upto_is_from_items<T: Named>(items: Seq<T::V>, filter: FilterView, m: int)
    requires
        0 <= m <= items.len(),
        in_order::<T>(items),
    ensures
        forall|q: int|
            0 <= q < kept_upto::<T>(items, filter, m).len() ==> from_before(
                items,
                m,
                #[trigger] kept_upto::<T>(items, filter, m)[q],
            ),
        in_order::<T>(kept_upto::<T>(items, filter, m)),
        distinct::<T>(items) ==> distinct::<T>(kept_upto::<T>(items, filter, m)),
    decreases m,
{
    if m > 0 {
        kept_upto_is_from_items::<T>(items, filter, m - 1);
        let before = kept_upto::<T>(items, filter, m - 1);
        let out = kept_upto::<T>(items, filter, m);
        assert forall|q: int| 0 <= q < out.len() implies from_before(
            items,
            m,
            #[trigger] out[q],
        ) by {
            if q < before.len() {
                assert(out[q] == before[q]);
                assert(from_before(items, m - 1, before[q]));
            } else {
                assert(out[q] == items[m - 1]);
            }
        }
        assert forall|i: int, j: int| 0 <= i < j < out.len() implies !precedes(
            T::key(#[trigger] out[j]),
            T::key(#[trigger] out[i]),
        ) && (distinct::<T>(items) ==> T::key(out[i]) != T::key(out[j])) by {
            assert(out[i] == before[i]);
            if j < before.len() {
                assert(out[j] == before[j]);
            } else {
                assert(from_before(items, m - 1, before[i]));
                let k = choose|k: int| 0 <= k < m - 1 && items[k] == before[i];
                assert(out[j] == items[m - 1]);
                assert(!precedes(T::key(items[m - 1]), T::key(items[k])));
            }
        }
    }
}

/// Whether an item is one of the first `m`.
spec fn from_before<V>(items: Seq<V>, m: int, item: V) -> bool {
    exists|k: int| 0 <= k < m && #[trigger] items[k] == item
}

/// A filter keeps a list in order, and distinct names distinct.
pub proof fn keeping_keeps_order<T: Named>(items: Seq<T::V>, filter: FilterView)
    requires
        in_order::<T>(items),
    ensures
        in_order::<T>(kept::<T>(items, filter)),
        distinct::<T>(items) ==> distinct::<T>(kept::<T>(items, filter)),
{
    kept_upto_is_from_items::<T>(items, filter, items.len() as int);
}

proof fn sorted_upto_is_distinct<T: Named>(items: Seq<T::V>, m: int)
    requires
        0 <= m <= items.len(),
        distinct::<T>(items),
    ensures
        distinct::<T>(sorted_upto::<T>(items, m)),
        forall|q: int|
            0 <= q < sorted_upto::<T>(items, m).len() ==> from_before(
                items,
                m,
                #[trigger] sorted_upto::<T>(items, m)[q],
            ),
    decreases m,
{
    if m > 0 {
        sorted_upto_is_distinct::<T>(items, m - 1);
        let before = sorted_upto::<T>(items, m - 1);
        let item = items[m - 1];
        place_splits::<T>(before, item, 0);
        let p = place_from::<T>(before, item, 0);
        let out = sorted_upto::<T>(items, m);
        assert(out == before.insert(p, item));
        assert forall|q: int| 0 <= q < out.len() implies from_before(
            items,
            m,
            #[trigger] out[q],
        ) by {
            if q == p {
                assert(out[q] == items[m - 1]);
            } else {
                let k = if q < p {
                    q
                } else {
                    q - 1
                };
                assert(out[q] == before[k]);
                assert(from_before(items, m - 1, before[k]));
            }
        }
        assert forall|i: int, j: int| 0 <= i < j < out.len() implies T::key(#[trigger] out[i])
            != T::key(#[trigger] out[j]) by {
            let a = if i < p {
                i
            } else {
                i - 1
            };
            let b = if j < p {
                j
            } else {
                j - 1
            };
            if i != p && j != p {
                assert(out[i] == before[a] && out[j] == before[b]);
            } else if i == p {
                assert(out[j] == before[b]);
                assert(from_before(items, m - 1, before[b]));
                let k = choose|k: int| 0 <= k < m - 1 && items[k] == before[b];
                assert(T::key(items[k]) != T::key(items[m - 1]));
            } else {
                assert(out[i] == before[a]);
                assert(from_before(items, m - 1, before[a]));
                let k = choose|k: int| 0 <= k < m - 1 && items[k] == before[a];
                assert(T::key(items[k]) != T::key(items[m - 1]));
            }
        }
    }
}

/// Sorting keeps distinct names distinct.
pub proof fn sorting_keeps_distinct<T: Named>(items: Seq<T::V>)
    requires
        distinct::<T>(items),
    ensures
        distinct::<T>(sorted::<T>(items)),
{
    sorted_upto_is_distinct::<T>(items, items.len() as int);
}

proof fn place_is<T: Named>(items: Seq<T::V>, item: T::V, p: int, i: int)
    requires
        0 <= i <= p <= items.len(),
        forall|k: int|
            i <= k < p ==> !precedes(T::key(item), T::key(#[trigger] items[k])),
        p < items.len() ==> precedes(T::key(item), T::key(items[p])),
    ensures
        place_from::<T>(items, item, i) == p,
    decreases p - i,
{
    if i < p {
        assert(!precedes(T::key(item), T::key(items[i])));
        place_is::<T>(items, item, p, i + 1);
    }
}

/// The kept items among the first `m`, cut at place `p`: the front is what is kept before
/// `p`, and the rest comes from behind it.
proof fn kept_is_cut<T: Named>(items: Seq<T::V>, filter: FilterView, p: int, m: int)
    requires
        0 <= p <= m <= items.len(),
    ensures
        ({
            let front = kept_upto::<T>(items, filter, p);
            let all = kept_upto::<T>(items, filter, m);
            &&& front.len() <= all.len()
            &&& all.subrange(0, front.len() as int) == front
            &&& forall|q: int|
                front.len() <= q < all.len() ==> from_between(items, p, m, #[trigger] all[q])
        }),
    decreases m - p,
{
    let front = kept_upto::<T>(items, filter, p);
    let all = kept_upto::<T>(items, filter, m);
    if p < m {
        kept_is_cut::<T>(items, filter, p, m - 1);
        let before = kept_upto::<T>(items, filter, m - 1);
        assert(all.subrange(0, front.len() as int) =~= before.subrange(0, front.len() as int));
        assert forall|q: int| front.len() <= q < all.len() implies from_between(
            items,
            p,
            m,
            #[trigger] all[q],
        ) by {
            if q < before.len() {
                assert(all[q] == before[q]);
                assert(from_between(items, p, m - 1, before[q]));
            } else {
                assert(all[q] == items[m - 1]);
            }
        }
    } else {
        assert(all.subrange(0, front.len() as int) =~= front);
    }
}

/// Whether an item is one of those from place `p` to before place `m`.
spec fn from_between<V>(items: Seq<V>, p: int, m: int, item: V) -> bool {
    exists|k: int| p <= k < m && #[trigger] items[k] == item
}

proof fn kept_of_insert<T: Named>(
    items: Seq<T::V>,
    item: T::V,
    p: int,
    filter: FilterView,
    m: int,
)
    requires
        0 <= p <= items.len(),
        0 <= m <= items.len() + 1,
    ensures
        ({
            let out = items.insert(p, item);
            let before = kept_upto::<T>(items, filter, p);
            kept_upto::<T>(out, filter, m) == if m <= p {
                kept_upto::<T>(items, filter, m)
            } else if filter.keeps(T::key(item)) {
                kept_upto::<T>(items, filter, m - 1).insert(before.len() as int, item)
            } else {
                kept_upto::<T>(items, filter, m - 1)
            }
        }),
    decreases m,
{
    let out = items.insert(p, item);
    let before = kept_upto::<T>(items, filter, p);
    if m > 0 {
        kept_of_insert::<T>(items, item, p, filter, m - 1);
        if m - 1 < p {
            assert(out[m - 1] == items[m - 1]);
        } else if m - 1 == p {
            assert(out[m - 1] == item);
            if filter.keeps(T::key(item)) {
                assert(before.insert(before.len() as int, item) =~= before.push(item));
            }
        } else {
            assert(out[m - 1] == items[m - 2]);
            kept_is_cut::<T>(items, filter, p, m - 2);
            let less = kept_upto::<T>(items, filter, m - 2);
            if filter.keeps(T::key(item)) && filter.keeps(T::key(items[m - 2])) {
                assert(less.insert(before.len() as int, item).push(items[m - 2]) =~= less.push(
                    items[m - 2],
                ).insert(before.len() as int, item));
            }
        }
    }
}

proof fn inserting_commutes<T: Named>(items: Seq<T::V>, item: T::V, filter: FilterView)
    requires
        in_order::<T>(items),
    ensures
        kept::<T>(inserted::<T>(items, item), filter) == if filter.keeps(T::key(item)) {
            inserted::<T>(kept::<T>(items, filter), item)
        } else {
            kept::<T>(items, filter)
        },
{
    place_splits::<T>(items, item, 0);
    let p = place_from::<T>(items, item, 0);
    let n = items.len() as int;
    kept_of_insert::<T>(items, item, p, filter, n + 1);
    if filter.keeps(T::key(item)) {
        let front = kept_upto::<T>(items, filter, p);
        let all = kept::<T>(items, filter);
        kept_is_cut::<T>(items, filter, p, n);
        kept_upto_is_from_items::<T>(items, filter, p);
        let q = front.len() as int;
        assert forall|k: int| 0 <= k < q implies !precedes(
            T::key(item),
            T::key(#[trigger] all[k]),
        ) by {
            assert(all.subrange(0, q)[k] == all[k]);
            assert(from_before(items, p, front[k]));
        }
        if q < all.len() {
            assert(from_between(items, p, n, all[q]));
            let k = choose|k: int| p <= k < n && items[k] == all[q];
            if k > p {
                assert(!precedes(T::key(items[k]), T::key(items[p])));
                if !precedes(T::key(item), T::key(items[k])) {
                    precedes_chain(T::key(items[p]), T::key(items[k]), T::key(item), 0);
                }
            }
        }
        place_is::<T>(all, item, q, 0);
    }
}

proof fn sorting_commutes_upto<T: Named>(items: Seq<T::V>, filter: FilterView, m: int)
    requires
        0 <= m <= items.len(),
    ensures
        ({
            let some = kept_upto::<T>(items, filter, m);
            kept::<T>(sorted_upto::<T>(items, m), filter) == sorted::<T>(some)
        }),
    decreases m,
{
    if m > 0 {
        sorting_commutes_upto::<T>(items, filter, m - 1);
        sorted_upto_is_sorted::<T>(items, m - 1);
        inserting_commutes::<T>(sorted_upto::<T>(items, m - 1), items[m - 1], filter);
        let some = kept_upto::<T>(items, filter, m - 1);
        if filter.keeps(T::key(items[m - 1])) {
            let more = some.push(items[m - 1]);
            sorted_upto_depends_on_front::<T>(more, some, some.len() as int);
        }
    }
}

proof fn sorted_upto_depends_on_front<T: Named>(a: Seq<T::V>, b: Seq<T::V>, m: int)
    requires
        0 <= m <= a.len(),
        m <= b.len(),
        forall|i: int| 0 <= i < m ==> #[trigger] a[i] == b[i],
    ensures
        sorted_upto::<T>(a, m) == sorted_upto::<T>(b, m),
    decreases m,
{
    if m > 0 {
        sorted_upto_depends_on_front::<T>(a, b, m - 1);
        assert(a[m - 1] == b[m - 1]);
    }
}

/// Sorting what a filter keeps is the same as keeping from what is sorted.
pub proof fn sorting_commutes_with_keeping<T: Named>(items: Seq<T::V>, filter: FilterView)
    ensures
        sorted::<T>(kept::<T>(items, filter)) == kept::<T>(sorted::<T>(items), filter),
{
    sorting_commutes_upto::<T>(items, filter, items.len() as int);
}

} // verus!
