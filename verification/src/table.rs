//! Tables from text to values, kept as a list of entries.

use vstd::prelude::*;
use vstd::string::*;
use crate::text::{copy_bytes, same};
use crate::views::{each, each_empty, each_push, seen};

verus! {

/// A type whose values can be copied without a change in what they stand for.
pub trait Copied: View + Sized {
    fn copied(&self) -> (r: Self)
        ensures
            r@ == self@,
    ;
}

impl Copied for String {
    fn copied(&self) -> (r: Self) {
        self.clone()
    }
}

impl Copied for Vec<u8> {
    fn copied(&self) -> (r: Self) {
        copy_bytes(self.as_slice())
    }
}

/// The value of the first entry for `key`, at or after place `i`.
pub open spec fn lookup_from<V>(entries: Seq<(Seq<char>, V)>, key: Seq<char>, i: int) -> Option<V>
    decreases entries.len() - i,
{
    if i >= entries.len() {
        None
    } else if entries[i].0 == key {
        Some(entries[i].1)
    } else {
        lookup_from(entries, key, i + 1)
    }
}

/// What a table holds for a key.
pub open spec fn get<V>(entries: Seq<(Seq<char>, V)>, key: Seq<char>) -> Option<V> {
    lookup_from(entries, key, 0)
}

/// The entries before place `i` that are not for `key`.
pub open spec fn without_upto<V>(entries: Seq<(Seq<char>, V)>, key: Seq<char>, i: int) -> Seq<
    (Seq<char>, V),
>
    decreases i,
{
    if i <= 0 {
        Seq::empty()
    } else if entries[i - 1].0 == key {
        without_upto(entries, key, i - 1)
    } else {
        without_upto(entries, key, i - 1).push(entries[i - 1])
    }
}

/// A table with nothing for `key`.
pub open spec fn without<V>(entries: Seq<(Seq<char>, V)>, key: Seq<char>) -> Seq<(Seq<char>, V)> {
    without_upto(entries, key, entries.len() as int)
}

/// A table with `value` for `key`.
pub open spec fn with<V>(entries: Seq<(Seq<char>, V)>, key: Seq<char>, value: V) -> Seq<
    (Seq<char>, V),
> {
    without(entries, key).push((key, value))
}

/// A table with `value` for `key` where there is a value, and nothing for it otherwise.
pub open spec fn with_option<V>(
    entries: Seq<(Seq<char>, V)>,
    key: Seq<char>,
    value: Option<V>,
) -> Seq<(Seq<char>, V)> {
    match value {
        Some(value) => with(entries, key, value),
        None => without(entries, key),
    }
}

/// Values by text.
pub struct Table<T> {
    pub entries: Vec<(String, T)>,
}

impl<T: View> View for Table<T> {
    type V = Seq<(Seq<char>, T::V)>;

    open spec fn view(&self) -> Seq<(Seq<char>, T::V)> {
        each(self.entries@)
    }
}

impl<T: View> Table<T> {
    pub fn new() -> (r: Self)
        ensures
            r@ == Seq::<(Seq<char>, T::V)>::empty(),
    {
        proof {
            each_empty::<(String, T)>();
        }
        Table { entries: Vec::new() }
    }

    pub fn is_empty(&self) -> (r: bool)
        ensures
            r == (self@.len() == 0),
    {
        self.entries.len() == 0
    }

    pub fn get(&self, key: &str) -> (r: Option<&T>)
        ensures
            seen(r) == get(self@, key@),
    {
        let mut i: usize = 0;
        while i < self.entries.len()
            invariant
                i <= self.entries.len(),
                get(self@, key@) == lookup_from(self@, key@, i as int),
            decreases self.entries.len() - i,
        {
            let entry = &self.entries[i];
            assert(self@[i as int] == entry@);
            if same(entry.0.as_str(), key) {
                return Some(&entry.1);
            }
            i += 1;
        }
        None
    }

    pub fn has(&self, key: &str) -> (r: bool)
        ensures
            r == (get(self@, key@) is Some),
    {
        self.get(key).is_some()
    }

    pub fn remove(&mut self, key: &str)
        ensures
            final(self)@ == without(old(self)@, key@),
    {
        let ghost all = self@;
        let ghost mut j: int = 0;
        let mut i: usize = 0;
        assert(self@ =~= without_upto(all, key@, 0) + all.subrange(0, all.len() as int));
        while i < self.entries.len()
            invariant
                0 <= j <= all.len(),
                self@ == without_upto(all, key@, j) + all.subrange(j, all.len() as int),
                i == without_upto(all, key@, j).len(),
            decreases self.entries.len() - i,
        {
            let ghost now = self@;
            let ghost rest = all.subrange(j, all.len() as int);
            assert(now[i as int] == rest[0]);
            assert(self.entries@[i as int]@ == all[j]);
            assert(all.subrange(j + 1, all.len() as int) =~= rest.skip(1));
            if same(self.entries[i].0.as_str(), key) {
                let ghost before = self.entries@;
                let _ = self.entries.remove(i);
                proof {
                    assert(self@ =~= now.remove(i as int));
                    assert(now.remove(i as int) =~= without_upto(all, key@, j + 1) + rest.skip(1));
                }
            } else {
                i += 1;
                assert(now =~= without_upto(all, key@, j + 1) + rest.skip(1));
            }
            proof {
                j = j + 1;
            }
        }
        proof {
            assert(j == all.len()) by {
                assert(self@.len() == without_upto(all, key@, j).len() + (all.len() - j));
            }
            assert(self@ =~= without_upto(all, key@, j));
        }
    }

    pub fn insert(&mut self, key: &str, value: T)
        ensures
            final(self)@ == with(old(self)@, key@, value@),
    {
        self.remove(key);
        let owned = key.to_owned();
        proof {
            each_push(self.entries@, (owned, value));
        }
        self.entries.push((owned, value));
    }

    /// Puts a value under `key`, or takes out what is there.
    pub fn assign(&mut self, key: &str, value: Option<T>)
        ensures
            final(self)@ == with_option(old(self)@, key@, seen(value)),
    {
        match value {
            Some(value) => self.insert(key, value),
            None => self.remove(key),
        }
    }
}

impl<T: Copied> Copied for Table<T> {
    fn copied(&self) -> (r: Self) {
        let mut entries: Vec<(String, T)> = Vec::new();
        let mut i: usize = 0;
        while i < self.entries.len()
            invariant
                i <= self.entries.len(),
                entries.len() == i,
                forall|k: int| 0 <= k < i ==> (#[trigger] entries@[k])@ == self.entries@[k]@,
            decreases self.entries.len() - i,
        {
            let key = self.entries[i].0.clone();
            let value = self.entries[i].1.copied();
            entries.push((key, value));
            i += 1;
        }
        let r = Table { entries };
        assert(r@ =~= self@);
        r
    }
}

/// A text value of a table, borrowed.
pub fn get_text<'a>(table: &'a Table<String>, key: &str) -> (r: Option<&'a str>)
    ensures
        seen(r) == get(table@, key@),
{
    match table.get(key) {
        Some(value) => Some(value.as_str()),
        None => None,
    }
}

/// An entry at the end is found exactly where no earlier one is.
pub proof fn lookup_push<V>(
    entries: Seq<(Seq<char>, V)>,
    entry: (Seq<char>, V),
    key: Seq<char>,
    i: int,
)
    requires
        0 <= i <= entries.len(),
    ensures
        lookup_from(entries.push(entry), key, i) == match lookup_from(entries, key, i) {
            Some(value) => Some(value),
            None => if entry.0 == key {
                Some(entry.1)
            } else {
                None
            },
        },
    decreases entries.len() - i,
{
    if i < entries.len() {
        lookup_push(entries, entry, key, i + 1);
        assert(entries.push(entry)[i] == entries[i]);
    } else {
        assert(entries.push(entry)[i] == entry);
        assert(lookup_from(entries.push(entry), key, i + 1) is None);
    }
}

proof fn lookup_without_upto<V>(
    entries: Seq<(Seq<char>, V)>,
    gone: Seq<char>,
    key: Seq<char>,
    i: int,
)
    requires
        0 <= i <= entries.len(),
    ensures
        get(without_upto(entries, gone, i), key) == if key == gone {
            None
        } else {
            get(entries.subrange(0, i), key)
        },
    decreases i,
{
    if i > 0 {
        lookup_without_upto(entries, gone, key, i - 1);
        let last = entries[i - 1];
        lookup_push(entries.subrange(0, i - 1), last, key, 0);
        assert(entries.subrange(0, i) =~= entries.subrange(0, i - 1).push(last));
        if last.0 != gone {
            lookup_push(without_upto(entries, gone, i - 1), last, key, 0);
        }
    }
}

/// What is taken out of a table is gone, and everything else stays.
pub proof fn get_without<V>(entries: Seq<(Seq<char>, V)>, gone: Seq<char>, key: Seq<char>)
    ensures
        get(without(entries, gone), key) == if key == gone {
            None
        } else {
            get(entries, key)
        },
{
    lookup_without_upto(entries, gone, key, entries.len() as int);
    assert(entries.subrange(0, entries.len() as int) =~= entries);
}

/// What is put into a table is found there, and everything else stays.
pub proof fn get_with<V>(entries: Seq<(Seq<char>, V)>, put: Seq<char>, value: V, key: Seq<char>)
    ensures
        get(with(entries, put, value), key) == if key == put {
            Some(value)
        } else {
            get(entries, key)
        },
{
    get_without(entries, put, key);
    lookup_push(without(entries, put), (put, value), key, 0);
}

} // verus!
