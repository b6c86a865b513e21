//! Lists without repetition: what it means to keep each item where it first
//! stands.

use vstd::prelude::*;

verus! {

/// A list with each item kept where it first stands and dropped wherever it
/// stands again.
pub open spec fn first_occurrences<T>(items: Seq<T>) -> Seq<T>
    decreases items.len(),
{
    if items.len() == 0 {
        Seq::empty()
    } else {
        let before = first_occurrences(items.drop_last());
        if before.contains(items.last()) {
            before
        } else {
            before.push(items.last())
        }
    }
}

/// Keeping first occurrences loses no item and leaves none twice.
pub proof fn lemma_first_occurrences<T>(items: Seq<T>)
    ensures
        first_occurrences(items).no_duplicates(),
        first_occurrences(items).to_set() == items.to_set(),
        first_occurrences(items).len() <= items.len(),
        items.len() > 0 ==> first_occurrences(items).len() > 0,
    decreases items.len(),
{
    if items.len() > 0 {
        let shorter = items.drop_last();
        let before = first_occurrences(shorter);
        lemma_first_occurrences(shorter);
        assert(items =~= shorter.push(items.last()));
        shorter.lemma_push_to_set_commute(items.last());
        before.lemma_push_to_set_commute(items.last());
    }
}

} // verus!
