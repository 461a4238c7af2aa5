use vstd::prelude::*;

verus! {

/// Turning a written scene value into the value that rendering uses.
pub trait Wrapper<T>: Sized {
    /// The values that `unwrap` takes.
    spec fn can_unwrap(&self) -> bool;

    fn unwrap(self) -> (r: Result<T, String>)
        requires
            self.can_unwrap(),
    ;
}

} // verus!
