//! Walking an owned list front to back.

use vstd::prelude::*;

verus! {

/// The items of `items` in opposite order, so that popping from the result
/// hands them out front to back.
pub fn reversed<T>(items: Vec<T>) -> (turned: Vec<T>)
    ensures
        turned@ == items@.reverse(),
{
    let mut rest = items;
    let mut turned: Vec<T> = Vec::new();
    let ghost all = items@;
    while rest.len() > 0
        invariant
            all == items@,
            rest.len() + turned.len() == all.len(),
            rest@ == all.take(rest.len() as int),
            turned@ == all.reverse().take(turned.len() as int),
        decreases rest.len(),
    {
        let item = rest.pop().unwrap();
        turned.push(item);
        assert(rest@ =~= all.take(rest.len() as int));
        assert(turned@ =~= all.reverse().take(turned.len() as int)) by {
            assert(item == all[rest.len() as int]);
            assert(all.reverse()[turned.len() - 1] == all[all.len() - 1 - (turned.len() - 1)]);
        }
    }
    assert(all.reverse().take(turned.len() as int) =~= all.reverse());
    turned
}

/// Popping from a reversed list yields the next item from the front: with
/// `left` items still on the stack, the top is the item at position
/// `all.len() - left`.
pub proof fn lemma_top_of_reversed<T>(all: Seq<T>, left: int)
    requires
        0 < left <= all.len(),
    ensures
        all.reverse().take(left).last() == all[all.len() - left],
        all.reverse().take(left).drop_last() == all.reverse().take(left - 1),
{
    assert(all.reverse().take(left).drop_last() =~= all.reverse().take(left - 1));
}

} // verus!
