use vstd::prelude::*;

verus! {

broadcast use vstd::function::group_function_axioms;

/// A function together with the number of times it has been called. The
/// function is reached only through `call0` and `call1`, each of which calls
/// it once and counts that call.
pub struct Counted<F> {
    f: F,
    calls: Ghost<nat>,
}

impl<F> Counted<F> {
    /// The function.
    pub closed spec fn func(&self) -> F {
        self.f
    }

    /// How many times the function has been called.
    pub closed spec fn calls(&self) -> nat {
        self.calls@
    }

    /// The same function after `n` more calls.
    pub closed spec fn called(self, n: nat) -> Self {
        Counted { f: self.f, calls: Ghost(self.calls@ + n) }
    }

    /// `f`, not called yet.
    pub fn new(f: F) -> (c: Self)
        ensures
            c.func() == f,
            c.calls() == 0,
    {
        Counted { f, calls: Ghost(0nat) }
    }

    /// Calls the function once with no argument.
    pub fn call0<R>(&mut self) -> (r: R) where F: FnMut() -> R
        requires
            call_requires(old(self).func(), ()),
        ensures
            call_ensures(old(self).func(), (), r),
            *final(self) == old(self).called(1),
    {
        let r = (self.f)();
        self.calls = Ghost(self.calls@ + 1);
        r
    }

    /// Calls the function once with `a`.
    pub fn call1<A, R>(&mut self, a: A) -> (r: R) where F: FnMut(A) -> R
        requires
            call_requires(old(self).func(), (a,)),
        ensures
            call_ensures(old(self).func(), (a,), r),
            *final(self) == old(self).called(1),
    {
        let r = (self.f)(a);
        self.calls = Ghost(self.calls@ + 1);
        r
    }
}

/// After `n` more calls the function is the same and its count is `n` higher;
/// a value is determined by its function and its count.
pub proof fn called_counts<F>(c: Counted<F>, n: nat)
    ensures
        c.called(n).func() == c.func(),
        c.called(n).calls() == c.calls() + n,
        c.called(0) == c,
        forall|d: Counted<F>| d.func() == c.func() && d.calls() == c.calls() ==> d == c,
{
}

} // verus!
