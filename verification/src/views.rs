//! Lifting of views through options, results and sequences.

use vstd::prelude::*;

verus! {

/// A text, as its characters.
pub type Text = Seq<char>;

/// A table from text to text, as its entries.
pub type Pairs = Seq<(Seq<char>, Seq<char>)>;

/// The view of what an option holds.
pub open spec fn seen<T: View>(option: Option<T>) -> Option<T::V> {
    match option {
        Some(value) => Some(value@),
        None => None,
    }
}

/// The view of either side of a result.
pub open spec fn settled<T: View, E: View>(result: Result<T, E>) -> Result<T::V, E::V> {
    match result {
        Ok(value) => Ok(value@),
        Err(error) => Err(error@),
    }
}

/// The views of the items of a sequence.
pub open spec fn each<T: View>(items: Seq<T>) -> Seq<T::V> {
    Seq::new(items.len(), |i: int| items[i]@)
}

/// The views of a sequence with one item more.
pub proof fn each_push<T: View>(items: Seq<T>, item: T)
    ensures
        each(items.push(item)) == each(items).push(item@),
{
    assert(each(items.push(item)) =~= each(items).push(item@));
}

/// The views of an empty sequence.
pub proof fn each_empty<T: View>()
    ensures
        each(Seq::<T>::empty()) == Seq::<T::V>::empty(),
{
    assert(each(Seq::<T>::empty()) =~= Seq::<T::V>::empty());
}

} // verus!
