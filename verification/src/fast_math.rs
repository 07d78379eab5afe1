//! The batch form of the fast-math approximations: an approximation applied
//! element by element from an input slice to an output slice, over as many
//! elements as the shorter of the two holds.
use vstd::prelude::*;

verus! {

/// The number of elements a batch operation processes: the length of the
/// shorter slice.
pub open spec fn batch_len(x_len: int, y_len: int) -> int {
    if x_len <= y_len {
        x_len
    } else {
        y_len
    }
}

/// Writes `f(x[i])` into `y[i]` for every `i` below both lengths; the rest of
/// `y` is left as it was.
pub fn apply_batch<T: Copy, U>(x: &[T], y: &mut [U], f: impl Fn(T) -> U)
    requires
        forall|i: int|
            0 <= i < x@.len() && i < old(y)@.len() ==> call_requires(f, (x@[i],)),
    ensures
        final(y)@.len() == old(y)@.len(),
        forall|i: int|
            #![auto]
            0 <= i < x@.len() && i < old(y)@.len() ==> call_ensures(f, (x@[i],), final(y)@[i]),
        forall|i: int|
            #![auto]
            x@.len() <= i < old(y)@.len() ==> final(y)@[i] == old(y)@[i],
{
    let n = if x.len() <= y.len() {
        x.len()
    } else {
        y.len()
    };
    for i in 0..n
        invariant
            n == batch_len(x@.len() as int, old(y)@.len() as int),
            y@.len() == old(y)@.len(),
            n <= x@.len(),
            forall|j: int| 0 <= j < x@.len() && j < old(y)@.len() ==> call_requires(f, (x@[j],)),
            forall|j: int| 0 <= j < i ==> call_ensures(f, (x@[j],), #[trigger] y@[j]),
            forall|j: int| i <= j < y@.len() ==> #[trigger] y@[j] == old(y)@[j],
    {
        let v = f(x[i]);
        y[i] = v;
    }
}

/// A batch covers every element that both slices hold: its length is the
/// smaller of the two lengths, no more and no less.
pub proof fn law_batch_len_is_min(a: int, b: int)
    requires
        a >= 0,
        b >= 0,
    ensures
        batch_len(a, b) <= a,
        batch_len(a, b) <= b,
        batch_len(a, b) == a || batch_len(a, b) == b,
{
}

} // verus!
