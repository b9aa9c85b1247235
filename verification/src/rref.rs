//! What may live on the shared heap, and how it is cleaned up when its domain dies.

use vstd::prelude::*;

verus! {

/// A type whose values may live on the shared heap: one that holds no borrowed
/// reference into the private heap of a domain.
pub trait RRefable {}

/// A shared-heap value that releases what it owns when the domain owning it dies.
pub trait CustomCleanup: RRefable {
    /// `after` is what cleaning up `before` leaves. A type that does not say claims
    /// nothing of it.
    open spec fn cleaned_up(before: &Self, after: &Self) -> bool {
        true
    }

    /// Releases what the value owns.
    fn cleanup(&mut self)
        ensures
            Self::cleaned_up(&*old(self), &*final(self)),
    ;
}

impl<T: RRefable> RRefable for Option<T> {}

impl<T: RRefable, const N: usize> RRefable for [T; N] {}

impl<T: CustomCleanup> CustomCleanup for Option<T> {
    /// An empty option stays empty; a full one holds what cleaning up its value leaves.
    open spec fn cleaned_up(before: &Option<T>, after: &Option<T>) -> bool {
        match (*before, *after) {
            (None, None) => true,
            (Some(b), Some(a)) => T::cleaned_up(&b, &a),
            _ => false,
        }
    }

    /// Cleans up the value held, if there is one.
    fn cleanup(&mut self) {
        if let Some(val) = self {
            val.cleanup();
        }
    }
}

impl<T: CustomCleanup, const N: usize> CustomCleanup for [T; N] {
    /// Every element holds what cleaning it up leaves.
    open spec fn cleaned_up(before: &[T; N], after: &[T; N]) -> bool {
        forall|i: int| 0 <= i < N ==> T::cleaned_up(&#[trigger] before@[i], &after@[i])
    }

    /// Cleans up every element, in order.
    fn cleanup(&mut self) {
        let mut i: usize = 0;
        while i < N
            invariant
                i <= N,
                self@.len() == N,
                forall|j: int| 0 <= j < i ==> T::cleaned_up(&#[trigger] old(self)@[j], &self@[j]),
                forall|j: int| i <= j < N ==> #[trigger] self@[j] == old(self)@[j],
            decreases N - i,
        {
            self[i].cleanup();
            i = i + 1;
        }
    }
}

} // verus!
