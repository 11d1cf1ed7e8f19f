use vstd::prelude::*;

verus! {

/// A function called once with one argument, whose output type can be
/// named in bounds (`F: FnOnceOutput<X, Out: Trait>`).
pub trait FnOnceOutput<In> {
    type Out;

    /// The call may be made with `x`.
    spec fn accepts(&self, x: In) -> bool;

    /// `out` is a possible result of the call with `x`.
    spec fn gives(&self, x: In, out: Self::Out) -> bool;

    fn call(self, x: In) -> (out: Self::Out) where Self: Sized
        requires
            self.accepts(x),
        ensures
            self.gives(x, out),
    ;
}

impl<In, F, O> FnOnceOutput<In> for F where F: FnOnce(In) -> O {
    type Out = O;

    open spec fn accepts(&self, x: In) -> bool {
        call_requires(*self, (x,))
    }

    open spec fn gives(&self, x: In, out: O) -> bool {
        call_ensures(*self, (x,), out)
    }

    fn call(self, x: In) -> (out: O) {
        self(x)
    }
}

} // verus!
