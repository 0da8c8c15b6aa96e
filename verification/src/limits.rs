//! What becomes of numbers and lists that reach a limit.
use vstd::prelude::*;

verus! {

/// A number as a `u64`; the largest one stands for all beyond it.
pub open spec fn saturated(n: nat) -> u64 {
    if n <= u64::MAX {
        n as u64
    } else {
        u64::MAX
    }
}

/// The last `count` elements, or all where there are fewer.
pub open spec fn last_of<T>(all: Seq<T>, count: nat) -> Seq<T> {
    if all.len() <= count {
        all
    } else {
        all.subrange(all.len() - count, all.len() as int)
    }
}

/// A number that fits is kept as it is, and one that does not is the largest that does.
pub proof fn saturated_keeps_what_fits(n: nat)
    ensures
        n <= u64::MAX ==> saturated(n) as nat == n,
        n > u64::MAX ==> saturated(n) == u64::MAX,
{
}

/// The last elements of a list are its end: as many as are asked for, or all of them, in
/// their order.
pub proof fn last_elements_are_the_end<T>(all: Seq<T>, count: nat)
    ensures
        last_of(all, count).len() == (if all.len() <= count {
            all.len()
        } else {
            count
        }),
        forall|i: int|
            0 <= i < last_of(all, count).len() ==> #[trigger] last_of(all, count)[i] == all[all.len()
                - last_of(all, count).len() + i],
{
}

} // verus!
