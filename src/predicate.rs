//! Predicates that can be stored and cloned.
use vstd::prelude::*;

verus! {

/// A stored predicate over `T`, cloneable when the function is.
pub struct PredicateContainer<F> {
    function: F,
}

impl<F: Clone> Clone for PredicateContainer<F> {
    fn clone(&self) -> (r: Self)
        ensures
            vstd::pervasive::cloned(self.function(), r.function()),
    {
        PredicateContainer { function: self.function.clone() }
    }
}

impl<F> PredicateContainer<F> {
    /// The stored function.
    pub closed spec fn function(&self) -> F {
        self.function
    }

    pub fn new(f: F) -> (r: Self)
        ensures
            r.function() == f,
    {
        PredicateContainer { function: f }
    }

    /// The predicate's answer for `val`.
    pub fn apply<T>(&self, val: &T) -> (r: bool) where F: Fn(&T) -> bool
        requires
            self.function().requires((val,)),
        ensures
            self.function().ensures((val,), r),
    {
        (self.function)(val)
    }
}

/// A predicate that can hand out a boxed copy of itself.
pub trait Predicate<T> {
    fn clone_boxed(&self) -> Box<Self>;
}

impl<T, F: Fn(&T) -> bool + Clone> Predicate<T> for F {
    fn clone_boxed(&self) -> Box<F> {
        Box::new(self.clone())
    }
}

} // verus!
