//! The builder contract shared by every "new entity" shape.

use vstd::prelude::*;

verus! {

/// An accumulator of optional slots that yields a complete `T` only once
/// every required slot is filled, and nothing before.
///
/// Each implementation states exactly which slots gate construction and
/// that the built value carries the last value set into each slot.
pub trait Builder<T>: Sized {
    /// The value the builder constructs.
    type Output;

    /// Yields the complete value, or `None` while a required slot is empty.
    fn build(&self) -> Option<T>;
}

/// Ties an entity to the builder that assembles its "new entity" shape.
pub trait HasBuilder<B: Builder<T>, T>: Sized {
    /// A builder with every slot empty.
    fn builder() -> B;
}

} // verus!
