use vstd::prelude::*;

verus! {

/// Marker for this crate's identifier family: the process-wide generator
/// hands out one stream of values per marker type.
#[derive(Copy, Clone, Eq, PartialEq, Hash)]
pub struct T(());

/// An identifier: a value drawn once from the process-wide generator,
/// compared only by equality.
#[derive(Copy, Clone, Eq, PartialEq, Structural, Hash, Debug)]
pub struct Id {
    value: usize,
}

impl Id {
    /// The underlying integer value.
    pub closed spec fn spec_get(self) -> usize {
        self.value
    }

    /// Relies on `uid::Id::new`, which draws a fresh value from a process-wide
    /// atomic counter that starts at 1, and `uid::Id::get`, which returns that
    /// value. The value depends on process state, so only its nonzeroness is
    /// stated; `new` aborts only if the counter itself wraps around.
    #[verifier::external_body]
    fn fresh_value() -> (r: usize)
        ensures
            r >= 1,
    {
        uid::Id::<T>::new().get()
    }

    /// Draw a fresh identifier.
    pub fn new() -> (r: Id)
        ensures
            r.spec_get() >= 1,
    {
        Id { value: Id::fresh_value() }
    }

    /// The underlying integer value.
    pub fn get(self) -> (r: usize)
        ensures
            r == self.spec_get(),
    {
        self.value
    }
}

} // verus!
