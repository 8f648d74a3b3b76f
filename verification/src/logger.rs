//! Taking the value out of a `Result` or an `Option` that must hold one.
use vstd::prelude::*;

verus! {

/// A value that must be present: `log_expect` takes it out. The engine
/// logs `msg` and stops where it is missing; callers here must show that
/// it is present.
pub trait LogExpect<T>: Sized {
    /// The value held, if any.
    spec fn expected(&self) -> Option<T>;

    /// The value held.
    fn log_expect(self, msg: &str) -> (r: T)
        requires
            self.expected() is Some,
        ensures
            self.expected() == Some(r),
    ;
}

impl<T, E: std::fmt::Debug> LogExpect<T> for Result<T, E> {
    open spec fn expected(&self) -> Option<T> {
        match self {
            Ok(v) => Some(*v),
            Err(_) => None,
        }
    }

    fn log_expect(self, msg: &str) -> (r: T) {
        self.unwrap()
    }
}

impl<T> LogExpect<T> for Option<T> {
    open spec fn expected(&self) -> Option<T> {
        *self
    }

    fn log_expect(self, msg: &str) -> (r: T) {
        self.unwrap()
    }
}

} // verus!
