//! The items of a feed, newest first.

use vstd::prelude::*;

verus! {

/// Puts a new item in front of the items of a feed.
pub fn add_item<T>(items: &mut Vec<T>, item: T)
    ensures
        final(items)@ == seq![item] + old(items)@,
{
    items.insert(0, item);
    assert(final(items)@ =~= seq![item] + old(items)@);
}

} // verus!
