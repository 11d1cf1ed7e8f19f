use vstd::prelude::*;

use crate::counted::{called_counts, Counted};
use crate::{generator_runs, yields, Generator, GeneratorState};
use vstd::std_specs::iter::IteratorSpec;

verus! {

broadcast use vstd::function::group_function_axioms;

/// Iterates over the items a generator yields when resumed with `()`,
/// ending when it completes.
pub struct Iter<G>(G);

impl<G> Iter<G> {
    /// The generator iterated over.
    pub closed spec fn generator(&self) -> G {
        self.0
    }
}

impl<G> Iter<G> where G: Generator<(), Return = ()> {
    /// Resumes the generator: `Some` of what it yields, or `None` once it completes.
    pub fn next(&mut self) -> (item: Option<G::Yield>)
        requires
            old(self).generator().resume_requires(()),
        ensures
            item matches Some(y) ==> old(self).generator().resume_ensures(
                (),
                final(self).generator(),
                GeneratorState::Yield(y),
            ),
            item is None ==> exists|r: G::Return|
                #![trigger old(self).generator().resume_ensures((), final(self).generator(), GeneratorState::Complete(r))]
                old(self).generator().resume_ensures((), final(self).generator(), GeneratorState::Complete(r)),
    {
        let out = self.0.resume(());
        match out {
            GeneratorState::Yield(val) => Some(val),
            GeneratorState::Complete(r) => {
                assert(old(self).generator().resume_ensures((), self.generator(), GeneratorState::Complete(r)));
                None
            },
        }
    }
}

/// A generator that yields the items of an iterator, then completes with `()`.
pub struct FromIter<I>(I);

impl<I> FromIter<I> {
    /// The iterator whose items are yielded.
    pub closed spec fn iter(&self) -> I {
        self.0
    }
}

impl<I: Iterator> Generator<()> for FromIter<I> {
    type Yield = I::Item;
    type Return = ();

    open spec fn resume_requires(&self, value: ()) -> bool {
        true
    }

    /// What items the iterator still holds is a prophecy, which this relation
    /// cannot speak of; `FromIter::resume` itself states which item comes out.
    open spec fn resume_ensures(&self, value: (), next: Self, out: GeneratorState<I::Item, ()>) -> bool {
        next.iter().obeys_prophetic_iter_laws() == self.iter().obeys_prophetic_iter_laws()
    }

    fn resume(&mut self, _value: ()) -> (out: GeneratorState<I::Item, ()>)
        ensures
            old(self).iter().obeys_prophetic_iter_laws() ==> if old(self).iter().remaining().len() > 0 {
                &&& final(self).iter().remaining() == old(self).iter().remaining().drop_first()
                &&& out == GeneratorState::<I::Item, ()>::Yield(old(self).iter().remaining()[0])
            } else {
                &&& final(self).iter().remaining() == old(self).iter().remaining()
                &&& out == GeneratorState::<I::Item, ()>::Complete(())
            },
    {
        match self.0.next() {
            Some(val) => GeneratorState::Yield(val),
            None => GeneratorState::Complete(()),
        }
    }
}

/// A generator that yields the items of `iter` in order, then completes.
pub fn from_iter<I: Iterator>(iter: I) -> (g: FromIter<I>)
    ensures
        g.iter() == iter,
{
    FromIter(iter)
}

/// A generator whose every resume is one call of a function, which decides
/// what the resume gives back.
pub struct FromFn<F>(F);

impl<F> FromFn<F> {
    /// The function each resume calls.
    pub closed spec fn step(&self) -> F {
        self.0
    }
}

impl<F, R, Y, Out> Generator<R> for FromFn<F> where F: FnMut(R) -> GeneratorState<Y, Out> {
    type Yield = Y;
    type Return = Out;

    open spec fn resume_requires(&self, value: R) -> bool {
        call_requires(self.step(), (value,))
    }

    open spec fn resume_ensures(&self, value: R, next: Self, out: GeneratorState<Y, Out>) -> bool {
        &&& next.step() == self.step()
        &&& call_ensures(self.step(), (value,), out)
    }

    fn resume(&mut self, value: R) -> (out: GeneratorState<Y, Out>) {
        (self.0)(value)
    }
}

/// A generator that hands every resume value to `f` and gives back what it returns.
pub fn from_fn<Resume, Yield, Return, F>(f: F) -> (g: FromFn<F>) where
    F: FnMut(Resume) -> GeneratorState<Yield, Return>,
    ensures
        g.step() == f,
{
    FromFn(f)
}

/// Turns a generator that is resumed with `()` and completes with `()` into an iterator.
pub trait GeneratorIterator {
    type Item;
    type Iter;

    fn into_iter(self) -> Self::Iter;
}

impl<G> GeneratorIterator for G where G: Generator<(), Return = ()> {
    type Item = G::Yield;
    type Iter = Iter<G>;

    fn into_iter(self) -> (it: Iter<G>)
        ensures
            it.generator() == self,
    {
        Iter(self)
    }
}

/// Combinators available on every generator.
pub trait GeneratorExt<R>: Generator<R> {
    /// Transforms every resume value with `f` before it reaches this generator.
    fn receiving<F, U>(self, f: F) -> (g: Receiving<Self, F>) where Self: Sized, F: FnMut(U) -> R
        ensures
            g.inner() == self,
            g.mapper() == f,
    {
        Receiving { g: self, f }
    }

    /// Feeds every item this generator yields into `then`.
    fn compose<G: Generator<Self::Yield>>(self, then: G) -> (g: Compose<Self, G>) where Self: Sized
        ensures
            g.first() == self,
            g.second() == then,
    {
        Compose { first: self, second: then }
    }

    /// Applies `f` to the result this generator completes with.
    fn map_complete<U, F>(self, f: F) -> (g: MapComplete<Self, F>) where
        Self: Sized,
        F: FnOnce(Self::Return) -> U,
        ensures
            g.inner() == self,
            g.mapper() == Some(f),
    {
        MapComplete { generator: self, f: Some(f) }
    }

    /// Applies `f` to every item this generator yields.
    fn map_yield<U, F>(self, f: F) -> (g: MapYield<Self, F>) where
        Self: Sized,
        F: FnMut(Self::Yield) -> U,
        ensures
            g.inner() == self,
            g.mapper() == f,
    {
        MapYield { generator: self, f }
    }

    /// Runs this generator to completion, then the generator that `f` makes
    /// of its result, resumed first with the value `f` gives with it.
    fn chain_with<G, F>(self, f: F) -> (g: AndThen<Self, F, G>) where
        Self: Sized,
        G: Generator<R, Yield = Self::Yield>,
        F: FnOnce(Self::Return) -> (G, R),
        ensures
            g == (AndThen::<Self, F, G>::Before { g: self, f: Some(f) }),
    {
        AndThen::Before { g: self, f: Some(f) }
    }

    /// Runs each generator this one yields, passing through what they yield.
    fn join_with<C, F, I>(self, continue_inner: I, continue_outer: F) -> (g: Flatten<Self, C, I, F>) where
        Self: Sized,
        Self: Generator<R, Yield = C>,
        C: Generator<R>,
        I: FnMut() -> R,
        F: FnMut(C::Return) -> R,
        ensures
            g.outer() == self,
            g.current() is None,
            g.continue_inner() == continue_inner,
            g.continue_outer() == continue_outer,
            g.inner_calls() == 0,
            g.outer_calls() == 0,
    {
        Flatten {
            g: self,
            current: None,
            continue_outer: Counted::new(continue_outer),
            continue_inner: Counted::new(continue_inner),
        }
    }
}

impl<G, R> GeneratorExt<R> for G where G: Generator<R> {
}

/// Which of two generators a composition's completion came from.
#[derive(Debug, PartialEq, Eq)]
pub enum Either<L, R> {
    Left(L),
    Right(R),
}

/// Feeds every item the first generator yields into the second generator.
///
/// A resume of the composition resumes the first generator; if it completes,
/// so does the composition, with `Left` of its result. Otherwise the yielded
/// item resumes the second generator, whose yield is the composition's yield
/// and whose completion completes the composition with `Right` of its result.
pub struct Compose<A, B> {
    first: A,
    second: B,
}

impl<A, B> Compose<A, B> {
    /// The generator resumed with the composition's resume values.
    pub closed spec fn first(&self) -> A {
        self.first
    }

    /// The generator resumed with what the first one yields.
    pub closed spec fn second(&self) -> B {
        self.second
    }
}

impl<A, B, R> Generator<R> for Compose<A, B> where A: Generator<R>, B: Generator<A::Yield> {
    type Yield = B::Yield;
    type Return = Either<A::Return, B::Return>;

    open spec fn resume_requires(&self, value: R) -> bool {
        &&& self.first().resume_requires(value)
        &&& forall|a: A, y: A::Yield|
            #[trigger] self.first().resume_ensures(value, a, GeneratorState::Yield(y))
                ==> self.second().resume_requires(y)
    }

    open spec fn resume_ensures(
        &self,
        value: R,
        next: Self,
        out: GeneratorState<B::Yield, Either<A::Return, B::Return>>,
    ) -> bool {
        match out {
            GeneratorState::Yield(z) => exists|y: A::Yield|
                #![trigger self.first().resume_ensures(value, next.first(), GeneratorState::Yield(y))]
                {
                    &&& self.first().resume_ensures(value, next.first(), GeneratorState::Yield(y))
                    &&& self.second().resume_ensures(y, next.second(), GeneratorState::<B::Yield, B::Return>::Yield(z))
                },
            GeneratorState::Complete(Either::Left(x)) => {
                &&& self.first().resume_ensures(value, next.first(), GeneratorState::Complete(x))
                &&& next.second() == self.second()
            },
            GeneratorState::Complete(Either::Right(z)) => exists|y: A::Yield|
                #![trigger self.first().resume_ensures(value, next.first(), GeneratorState::Yield(y))]
                {
                    &&& self.first().resume_ensures(value, next.first(), GeneratorState::Yield(y))
                    &&& self.second().resume_ensures(y, next.second(), GeneratorState::Complete(z))
                },
        }
    }

    fn resume(&mut self, value: R) -> (out: GeneratorState<B::Yield, Either<A::Return, B::Return>>) {
        let ghost start = *self;
        let y = match self.first.resume(value) {
            GeneratorState::Complete(x) => return GeneratorState::Complete(Either::Left(x)),
            GeneratorState::Yield(y) => y,
        };
        let ghost y0 = y;
        let second_out = self.second.resume(y);
        let ghost second_out0 = second_out;
        let tag_second = |z: B::Return| -> (e: Either<A::Return, B::Return>)
            ensures
                e matches Either::Right(w) && w == z,
        {
            Either::Right(z)
        };
        let out = second_out.map_complete(tag_second);
        proof {
            match second_out0 {
                GeneratorState::Yield(z) => {
                    assert(start.first().resume_ensures(value, self.first(), GeneratorState::Yield(y0)));
                },
                GeneratorState::Complete(z) => {
                    assert(start.first().resume_ensures(value, self.first(), GeneratorState::Yield(y0)));
                },
            }
        }
        out
    }
}

/// Applies a function to the result a generator completes with.
pub struct MapComplete<G, F> {
    generator: G,
    f: Option<F>,
}

impl<G, F> MapComplete<G, F> {
    /// The generator whose result is mapped.
    pub closed spec fn inner(&self) -> G {
        self.generator
    }

    /// The function, until it has been applied.
    pub closed spec fn mapper(&self) -> Option<F> {
        self.f
    }
}

impl<G, F, R, U> Generator<R> for MapComplete<G, F> where G: Generator<R>, F: FnOnce(G::Return) -> U {
    type Yield = G::Yield;
    type Return = U;

    open spec fn resume_requires(&self, value: R) -> bool {
        &&& self.inner().resume_requires(value)
        &&& forall|g: G, r: G::Return|
            #[trigger] self.inner().resume_ensures(value, g, GeneratorState::Complete(r)) ==> {
                &&& self.mapper() is Some
                &&& call_requires(self.mapper()->0, (r,))
            }
    }

    open spec fn resume_ensures(&self, value: R, next: Self, out: GeneratorState<G::Yield, U>) -> bool {
        match out {
            GeneratorState::Yield(y) => {
                &&& self.inner().resume_ensures(value, next.inner(), GeneratorState::Yield(y))
                &&& next.mapper() == self.mapper()
            },
            GeneratorState::Complete(u) => {
                &&& next.mapper() is None
                &&& exists|r: G::Return|
                    #![trigger self.inner().resume_ensures(value, next.inner(), GeneratorState::Complete(r))]
                    self.inner().resume_ensures(value, next.inner(), GeneratorState::Complete(r))
                        && call_ensures(self.mapper()->0, (r,), u)
            },
        }
    }

    fn resume(&mut self, value: R) -> (out: GeneratorState<G::Yield, U>) {
        match self.generator.resume(value) {
            GeneratorState::Yield(y) => GeneratorState::Yield(y),
            GeneratorState::Complete(r) => {
                let ghost r0 = r;
                let f = self.f.take().unwrap();
                let u = f(r);
                assert(old(self).inner().resume_ensures(value, self.inner(), GeneratorState::Complete(r0)));
                GeneratorState::Complete(u)
            },
        }
    }
}

/// Applies a function to every item a generator yields.
pub struct MapYield<G, F> {
    generator: G,
    f: F,
}

impl<G, F> MapYield<G, F> {
    /// The generator whose items are mapped.
    pub closed spec fn inner(&self) -> G {
        self.generator
    }

    /// The function applied to every item.
    pub closed spec fn mapper(&self) -> F {
        self.f
    }
}

impl<G, F, R, Y, U> Generator<R> for MapYield<G, F> where G: Generator<R, Yield = Y>, F: FnMut(Y) -> U {
    type Yield = U;
    type Return = G::Return;

    open spec fn resume_requires(&self, value: R) -> bool {
        &&& self.inner().resume_requires(value)
        &&& forall|g: G, y: Y|
            #[trigger] self.inner().resume_ensures(value, g, GeneratorState::Yield(y))
                ==> call_requires(self.mapper(), (y,))
    }

    open spec fn resume_ensures(&self, value: R, next: Self, out: GeneratorState<U, G::Return>) -> bool {
        &&& next.mapper() == self.mapper()
        &&& match out {
            GeneratorState::Yield(u) => exists|y: Y|
                #![trigger self.inner().resume_ensures(value, next.inner(), GeneratorState::Yield(y))]
                self.inner().resume_ensures(value, next.inner(), GeneratorState::Yield(y))
                    && call_ensures(self.mapper(), (y,), u),
            GeneratorState::Complete(r) => self.inner().resume_ensures(
                value,
                next.inner(),
                GeneratorState::Complete(r),
            ),
        }
    }

    fn resume(&mut self, value: R) -> (out: GeneratorState<U, G::Return>) {
        match self.generator.resume(value) {
            GeneratorState::Yield(y) => {
                let ghost y0 = y;
                let u = (self.f)(y);
                assert(old(self).inner().resume_ensures(value, self.inner(), GeneratorState::Yield(y0)));
                GeneratorState::Yield(u)
            },
            GeneratorState::Complete(r) => GeneratorState::Complete(r),
        }
    }
}

/// Runs a first generator until it completes, then hands its result to a
/// function that makes the second generator and the value to resume it
/// with; from then on every resume goes to the second generator.
pub enum AndThen<G1, F, G2> {
    Before { g: G1, f: Option<F> },
    After { g: G2 },
}

impl<G1, F, G2, R> Generator<R> for AndThen<G1, F, G2> where
    G1: Generator<R>,
    F: FnOnce(G1::Return) -> (G2, R),
    G2: Generator<R, Yield = G1::Yield>,
 {
    type Yield = G1::Yield;
    type Return = G2::Return;

    open spec fn resume_requires(&self, value: R) -> bool {
        match *self {
            AndThen::Before { g, f } => {
                &&& g.resume_requires(value)
                &&& forall|g1: G1, r: G1::Return|
                    #[trigger] g.resume_ensures(value, g1, GeneratorState::Complete(r)) ==> {
                        &&& f is Some
                        &&& call_requires(f->0, (r,))
                        &&& forall|g2: G2, w: R|
                            call_ensures(f->0, (r,), (g2, w)) ==> #[trigger] g2.resume_requires(w)
                    }
            },
            AndThen::After { g } => g.resume_requires(value),
        }
    }

    open spec fn resume_ensures(
        &self,
        value: R,
        next: Self,
        out: GeneratorState<G1::Yield, G2::Return>,
    ) -> bool {
        match *self {
            AndThen::Before { g, f } => match next {
                AndThen::Before { g: g1, f: f1 } => {
                    &&& f1 == f
                    &&& out matches GeneratorState::Yield(y) && g.resume_ensures(
                        value,
                        g1,
                        GeneratorState::Yield(y),
                    )
                },
                AndThen::After { g: g3 } => exists|g1: G1, r: G1::Return, g2: G2, w: R|
                    #![trigger g.resume_ensures(value, g1, GeneratorState::Complete(r)), call_ensures(f->0, (r,), (g2, w))]
                    {
                        &&& g.resume_ensures(value, g1, GeneratorState::Complete(r))
                        &&& f is Some
                        &&& call_ensures(f->0, (r,), (g2, w))
                        &&& g2.resume_ensures(w, g3, out)
                    },
            },
            AndThen::After { g } => next matches AndThen::After { g: g3 } && g.resume_ensures(value, g3, out),
        }
    }

    fn resume(&mut self, value: R) -> (out: GeneratorState<G1::Yield, G2::Return>) {
        let ghost start = *self;
        let ghost mut first_after: G1;
        let ghost mut result: G1::Return;
        let (mut second, first_value) = match self {
            AndThen::Before { g, f } => match g.resume(value) {
                GeneratorState::Complete(r) => {
                    proof {
                        first_after = *g;
                        result = r;
                    }
                    let f = f.take().unwrap();
                    let made = f(r);
                    made
                },
                GeneratorState::Yield(y) => {
                    return GeneratorState::Yield(y);
                },
            },
            AndThen::After { g } => {
                return g.resume(value);
            },
        };
        let ghost second_start = second;
        let ghost second_value = first_value;
        let out = second.resume(first_value);
        *self = AndThen::After { g: second };
        proof {
            let g0 = start->Before_g;
        }
        out
    }
}

/// Runs an outer generator whose items are themselves generators, and passes
/// through everything the inner generators yield.
///
/// When an inner generator completes, `continue_outer` turns its result into
/// the value the outer generator is resumed with; when the outer generator
/// yields a new inner generator, `continue_inner` makes the value that inner
/// generator is first resumed with.
pub struct Flatten<G, C, I, F> {
    g: G,
    current: Option<C>,
    continue_inner: Counted<I>,
    continue_outer: Counted<F>,
}

impl<G, C, I, F> Flatten<G, C, I, F> {
    /// The generator whose items are the inner generators.
    pub closed spec fn outer(&self) -> G {
        self.g
    }

    /// The inner generator being run, if any.
    pub closed spec fn current(&self) -> Option<C> {
        self.current
    }

    /// Makes the value a new inner generator is first resumed with.
    pub closed spec fn continue_inner(&self) -> I {
        self.continue_inner.func()
    }

    /// Turns an inner generator's result into the outer generator's resume value.
    pub closed spec fn continue_outer(&self) -> F {
        self.continue_outer.func()
    }

    /// How many times `continue_inner` has been called.
    pub closed spec fn inner_calls(&self) -> nat {
        self.continue_inner.calls()
    }

    /// How many times `continue_outer` has been called.
    pub closed spec fn outer_calls(&self) -> nat {
        self.continue_outer.calls()
    }
}

/// `t` keeps the two continuation functions of `s`.
pub open spec fn flatten_same_continuations<G, C, I, F>(s: Flatten<G, C, I, F>, t: Flatten<G, C, I, F>) -> bool {
    &&& t.continue_inner() == s.continue_inner()
    &&& t.continue_outer() == s.continue_outer()
}

/// One turn of the loop inside `Flatten::resume` that does not return: from
/// state `s` resumed with `v` to state `t` resumed with `w`. Either the
/// running inner generator completes, is dropped, and `continue_outer` makes
/// `w` of its result; or, with no inner generator running, the outer
/// generator yields one, which is kept, and `continue_inner` makes `w`.
pub open spec fn flatten_step<R, G, C, I, F>(
    s: Flatten<G, C, I, F>,
    v: R,
    t: Flatten<G, C, I, F>,
    w: R,
) -> bool where
    G: Generator<R, Yield = C>,
    C: Generator<R>,
    I: FnMut() -> R,
    F: FnMut(C::Return) -> R,
 {
    &&& flatten_same_continuations(s, t)
    &&& match s.current() {
        Some(c) => {
            &&& t.outer() == s.outer()
            &&& t.current() is None
            &&& t.inner_calls() == s.inner_calls()
            &&& t.outer_calls() == s.outer_calls() + 1
            &&& exists|c2: C, seed: C::Return|
                #![trigger c.resume_ensures(v, c2, GeneratorState::Complete(seed))]
                c.resume_ensures(v, c2, GeneratorState::Complete(seed)) && call_ensures(
                    s.continue_outer(),
                    (seed,),
                    w,
                )
        },
        None => {
            &&& t.current() matches Some(c) && s.outer().resume_ensures(
                v,
                t.outer(),
                GeneratorState::Yield(c),
            )
            &&& call_ensures(s.continue_inner(), (), w)
            &&& t.inner_calls() == s.inner_calls() + 1
            &&& t.outer_calls() == s.outer_calls()
        },
    }
}

/// The turn of the loop inside `Flatten::resume` that returns `out`, leaving
/// `next`: the running inner generator yields, and stays; or, with no inner
/// generator running, the outer generator completes.
pub open spec fn flatten_exit<R, G, C, I, F>(
    s: Flatten<G, C, I, F>,
    v: R,
    next: Flatten<G, C, I, F>,
    out: GeneratorState<C::Yield, G::Return>,
) -> bool where
    G: Generator<R, Yield = C>,
    C: Generator<R>,
    I: FnMut() -> R,
    F: FnMut(C::Return) -> R,
 {
    &&& flatten_same_continuations(s, next)
    &&& next.inner_calls() == s.inner_calls()
    &&& next.outer_calls() == s.outer_calls()
    &&& match s.current() {
        Some(c) => {
            &&& next.outer() == s.outer()
            &&& next.current() is Some
            &&& out matches GeneratorState::Yield(y) && c.resume_ensures(
                v,
                next.current()->0,
                GeneratorState::Yield(y),
            )
        },
        None => {
            &&& next.current() is None
            &&& out matches GeneratorState::Complete(r) && s.outer().resume_ensures(
                v,
                next.outer(),
                GeneratorState::Complete(r),
            )
        },
    }
}

/// State `t` with value `w` is reached from `s` with `v` after `k` turns of the loop.
pub open spec fn flatten_reaches<R, G, C, I, F>(
    s: Flatten<G, C, I, F>,
    v: R,
    t: Flatten<G, C, I, F>,
    w: R,
    k: nat,
) -> bool where
    G: Generator<R, Yield = C>,
    C: Generator<R>,
    I: FnMut() -> R,
    F: FnMut(C::Return) -> R,
    decreases k,
 {
    if k == 0 {
        t == s && w == v
    } else {
        exists|t1: Flatten<G, C, I, F>, w1: R|
            flatten_reaches(s, v, t1, w1, (k - 1) as nat) && flatten_step(t1, w1, t, w)
    }
}

/// The calls that one turn of the loop inside `Flatten::resume` makes from
/// state `s` with value `v` meet their requirements.
pub open spec fn flatten_turn_allowed<R, G, C, I, F>(s: Flatten<G, C, I, F>, v: R) -> bool where
    G: Generator<R, Yield = C>,
    C: Generator<R>,
    I: FnMut() -> R,
    F: FnMut(C::Return) -> R,
 {
    match s.current() {
        Some(c) => {
            &&& c.resume_requires(v)
            &&& forall|c2: C, seed: C::Return|
                #[trigger] c.resume_ensures(v, c2, GeneratorState::Complete(seed))
                    ==> call_requires(s.continue_outer(), (seed,))
        },
        None => {
            &&& s.outer().resume_requires(v)
            &&& forall|g2: G, c: C|
                #[trigger] s.outer().resume_ensures(v, g2, GeneratorState::Yield(c))
                    ==> call_requires(s.continue_inner(), ())
        },
    }
}

/// Every way the loop inside `Flatten::resume` can run from `s` with `v` meets
/// the requirements of the calls it makes and returns within `n` turns.
pub open spec fn flatten_returns_within<R, G, C, I, F>(s: Flatten<G, C, I, F>, v: R, n: nat) -> bool where
    G: Generator<R, Yield = C>,
    C: Generator<R>,
    I: FnMut() -> R,
    F: FnMut(C::Return) -> R,
    decreases n,
 {
    if n == 0 {
        false
    } else {
        &&& flatten_turn_allowed(s, v)
        &&& forall|t: Flatten<G, C, I, F>, w: R|
            #[trigger] flatten_step(s, v, t, w) ==> flatten_returns_within(t, w, (n - 1) as nat)
    }
}

impl<R, G, C, F, I> Generator<R> for Flatten<G, C, I, F> where
    G: Generator<R, Yield = C>,
    C: Generator<R>,
    F: FnMut(C::Return) -> R,
    I: FnMut() -> R,
 {
    type Yield = C::Yield;
    type Return = G::Return;

    open spec fn resume_requires(&self, value: R) -> bool {
        exists|n: nat| flatten_returns_within(*self, value, n)
    }

    open spec fn resume_ensures(
        &self,
        value: R,
        next: Self,
        out: GeneratorState<C::Yield, G::Return>,
    ) -> bool {
        exists|t: Self, w: R, k: nat| flatten_reaches(*self, value, t, w, k) && flatten_exit(t, w, next, out)
    }

    fn resume(&mut self, value: R) -> (out: GeneratorState<C::Yield, G::Return>) {
        let ghost start = *self;
        let ghost start_value = value;
        let ghost mut fuel: nat = choose|n: nat| flatten_returns_within(*self, value, n);
        let ghost mut k: nat = 0;
        let mut v = value;
        loop
            invariant
                start == *old(self),
                start_value == value,
                flatten_returns_within(*self, v, fuel),
                flatten_reaches(start, start_value, *self, v, k),
            decreases fuel,
        {
            let ghost before = *self;
            let ghost before_value = v;
            match self.current.take() {
                Some(mut c) => {
                    match c.resume(v) {
                        GeneratorState::Yield(y) => {
                            self.current = Some(c);
                            return GeneratorState::Yield(y);
                        },
                        GeneratorState::Complete(seed) => {
                            v = self.continue_outer.call1(seed);
                            proof {
                                called_counts(before.continue_inner, 1);
                                called_counts(before.continue_outer, 1);
                                assert(flatten_step(before, before_value, *self, v));
                                k = k + 1;
                                fuel = (fuel - 1) as nat;
                            }
                        },
                    }
                },
                None => {
                    match self.g.resume(v) {
                        GeneratorState::Complete(r) => {
                            return GeneratorState::Complete(r);
                        },
                        GeneratorState::Yield(c) => {
                            self.current = Some(c);
                            v = self.continue_inner.call0();
                            proof {
                                called_counts(before.continue_inner, 1);
                                called_counts(before.continue_outer, 1);
                                assert(flatten_step(before, before_value, *self, v));
                                k = k + 1;
                                fuel = (fuel - 1) as nat;
                            }
                        },
                    }
                },
            }
        }
    }
}

/// The turns of the loop inside `Flatten::resume` keep both continuation functions.
proof fn flatten_reaches_keeps_continuations<R, G, C, I, F>(
    s: Flatten<G, C, I, F>,
    v: R,
    t: Flatten<G, C, I, F>,
    w: R,
    k: nat,
) where
    G: Generator<R, Yield = C>,
    C: Generator<R>,
    I: FnMut() -> R,
    F: FnMut(C::Return) -> R,

    requires
        flatten_reaches(s, v, t, w, k),
    ensures
        t.continue_inner() == s.continue_inner(),
        t.continue_outer() == s.continue_outer(),
    decreases k,
{
    if k > 0 {
        let (t1, w1) = choose|t1: Flatten<G, C, I, F>, w1: R|
            flatten_reaches(s, v, t1, w1, (k - 1) as nat) && flatten_step(t1, w1, t, w);
        flatten_reaches_keeps_continuations(s, v, t1, w1, (k - 1) as nat);
    }
}

/// A flattened generator keeps its two continuation functions across every
/// resume, and it yields exactly when it is left running an inner
/// generator: a yield always comes from an inner generator, and a
/// completion is the outer generator's, with no inner generator left.
pub proof fn flatten_resume_shape<R, G, C, I, F>(
    s: Flatten<G, C, I, F>,
    value: R,
    next: Flatten<G, C, I, F>,
    out: GeneratorState<C::Yield, G::Return>,
) where
    G: Generator<R, Yield = C>,
    C: Generator<R>,
    I: FnMut() -> R,
    F: FnMut(C::Return) -> R,

    requires
        s.resume_ensures(value, next, out),
    ensures
        next.continue_inner() == s.continue_inner(),
        next.continue_outer() == s.continue_outer(),
        out is Yield <==> next.current() is Some,
{
    let (t, w, k) = choose|t: Flatten<G, C, I, F>, w: R, k: nat|
        flatten_reaches(s, value, t, w, k) && flatten_exit(t, w, next, out);
    flatten_reaches_keeps_continuations(s, value, t, w, k);
}

/// A loop that takes at least one turn begins with a turn.
proof fn flatten_reaches_first<R, G, C, I, F>(
    s: Flatten<G, C, I, F>,
    v: R,
    x: Flatten<G, C, I, F>,
    u: R,
    k: nat,
) where
    G: Generator<R, Yield = C>,
    C: Generator<R>,
    I: FnMut() -> R,
    F: FnMut(C::Return) -> R,

    requires
        flatten_reaches(s, v, x, u, k),
        k > 0,
    ensures
        exists|t: Flatten<G, C, I, F>, w: R|
            flatten_step(s, v, t, w) && flatten_reaches(t, w, x, u, (k - 1) as nat),
    decreases k,
{
    let (t1, w1) = choose|t1: Flatten<G, C, I, F>, w1: R|
        flatten_reaches(s, v, t1, w1, (k - 1) as nat) && flatten_step(t1, w1, x, u);
    if k == 1 {
        assert(flatten_reaches(x, u, x, u, 0));
    } else {
        flatten_reaches_first(s, v, t1, w1, (k - 1) as nat);
        let (t, w) = choose|t: Flatten<G, C, I, F>, w: R|
            flatten_step(s, v, t, w) && flatten_reaches(t, w, t1, w1, (k - 2) as nat);
        assert(flatten_reaches(t, w, x, u, (k - 1) as nat));
    }
}

/// Whether `s` has called `continue_inner` once for every inner generator
/// it started and `continue_outer` once for every inner generator that
/// completed: the two counts are equal, but for the one inner generator
/// that may be running.
pub open spec fn flatten_calls_balanced<G, C, I, F>(s: Flatten<G, C, I, F>) -> bool {
    s.inner_calls() == s.outer_calls() + if s.current() is Some {
        1nat
    } else {
        0nat
    }
}

/// The turns of the loop keep the two counts of calls balanced.
proof fn flatten_reaches_balanced<R, G, C, I, F>(
    s: Flatten<G, C, I, F>,
    v: R,
    x: Flatten<G, C, I, F>,
    u: R,
    k: nat,
) where
    G: Generator<R, Yield = C>,
    C: Generator<R>,
    I: FnMut() -> R,
    F: FnMut(C::Return) -> R,

    requires
        flatten_reaches(s, v, x, u, k),
        flatten_calls_balanced(s),
    ensures
        flatten_calls_balanced(x),
    decreases k,
{
    if k > 0 {
        let (t1, w1) = choose|t1: Flatten<G, C, I, F>, w1: R|
            flatten_reaches(s, v, t1, w1, (k - 1) as nat) && flatten_step(t1, w1, x, u);
        flatten_reaches_balanced(s, v, t1, w1, (k - 1) as nat);
    }
}

/// Every resume of a flattened generator keeps `continue_inner` called
/// exactly once per inner generator started and `continue_outer` exactly
/// once per inner generator that completed. A flattened generator made by
/// `join_with` starts out so, with no calls and no inner generator.
pub proof fn flatten_resume_keeps_calls_balanced<R, G, C, I, F>(
    s: Flatten<G, C, I, F>,
    value: R,
    next: Flatten<G, C, I, F>,
    out: GeneratorState<C::Yield, G::Return>,
) where
    G: Generator<R, Yield = C>,
    C: Generator<R>,
    I: FnMut() -> R,
    F: FnMut(C::Return) -> R,

    requires
        flatten_calls_balanced(s),
        s.resume_ensures(value, next, out),
    ensures
        flatten_calls_balanced(next),
        next.inner_calls() >= s.inner_calls(),
        next.outer_calls() >= s.outer_calls(),
{
    let (t, w, k) = choose|t: Flatten<G, C, I, F>, w: R, k: nat|
        flatten_reaches(s, value, t, w, k) && flatten_exit(t, w, next, out);
    flatten_reaches_balanced(s, value, t, w, k);
    flatten_reaches_counts_grow(s, value, t, w, k);
}

/// The turns of the loop never undo a call.
proof fn flatten_reaches_counts_grow<R, G, C, I, F>(
    s: Flatten<G, C, I, F>,
    v: R,
    x: Flatten<G, C, I, F>,
    u: R,
    k: nat,
) where
    G: Generator<R, Yield = C>,
    C: Generator<R>,
    I: FnMut() -> R,
    F: FnMut(C::Return) -> R,

    requires
        flatten_reaches(s, v, x, u, k),
    ensures
        x.inner_calls() >= s.inner_calls(),
        x.outer_calls() >= s.outer_calls(),
        x.inner_calls() + x.outer_calls() == s.inner_calls() + s.outer_calls() + k,
    decreases k,
{
    if k > 0 {
        let (t1, w1) = choose|t1: Flatten<G, C, I, F>, w1: R|
            flatten_reaches(s, v, t1, w1, (k - 1) as nat) && flatten_step(t1, w1, x, u);
        flatten_reaches_counts_grow(s, v, t1, w1, (k - 1) as nat);
    }
}

/// A resume of a flattened generator with no inner generator running
/// resumes the outer generator with `value`. If that completes with `r`,
/// so does the resume, and nothing else is called. If it yields an inner
/// generator `c`, `continue_inner` is called exactly once, and the resume
/// goes on as a resume, with the result `w` of that call, of the flattened
/// generator now running `c`. Both ways round: every such path is a
/// possible resume, and every resume is one of them.
pub proof fn flatten_starts_inner_once<R, G, C, I, F>(
    s: Flatten<G, C, I, F>,
    value: R,
    next: Flatten<G, C, I, F>,
    out: GeneratorState<C::Yield, G::Return>,
) where
    G: Generator<R, Yield = C>,
    C: Generator<R>,
    I: FnMut() -> R,
    F: FnMut(C::Return) -> R,

    requires
        s.current() is None,
    ensures
        s.resume_ensures(value, next, out) <==> {
            ||| {
                &&& out matches GeneratorState::Complete(r) && s.outer().resume_ensures(
                    value,
                    next.outer(),
                    GeneratorState::Complete(r),
                )
                &&& next.current() is None
                &&& flatten_same_continuations(s, next)
                &&& next.inner_calls() == s.inner_calls()
                &&& next.outer_calls() == s.outer_calls()
            }
            ||| exists|t: Flatten<G, C, I, F>, w: R|
                {
                    &&& t.current() matches Some(c) && s.outer().resume_ensures(
                        value,
                        t.outer(),
                        GeneratorState::Yield(c),
                    )
                    &&& call_ensures(s.continue_inner(), (), w)
                    &&& flatten_same_continuations(s, t)
                    &&& t.inner_calls() == s.inner_calls() + 1
                    &&& t.outer_calls() == s.outer_calls()
                    &&& #[trigger] t.resume_ensures(w, next, out)
                }
        },
{
    if s.resume_ensures(value, next, out) {
        let (x, u, k) = choose|x: Flatten<G, C, I, F>, u: R, k: nat|
            flatten_reaches(s, value, x, u, k) && flatten_exit(x, u, next, out);
        if k > 0 {
            flatten_reaches_first(s, value, x, u, k);
            let (t, w) = choose|t: Flatten<G, C, I, F>, w: R|
                flatten_step(s, value, t, w) && flatten_reaches(t, w, x, u, (k - 1) as nat);
            assert(t.resume_ensures(w, next, out));
        }
    }
    assert forall|t: Flatten<G, C, I, F>, w: R|
        {
            &&& t.current() matches Some(c) && s.outer().resume_ensures(
                value,
                t.outer(),
                GeneratorState::Yield(c),
            )
            &&& call_ensures(s.continue_inner(), (), w)
            &&& flatten_same_continuations(s, t)
            &&& t.inner_calls() == s.inner_calls() + 1
            &&& t.outer_calls() == s.outer_calls()
            &&& #[trigger] t.resume_ensures(w, next, out)
        } implies s.resume_ensures(value, next, out) by {
        flatten_resume_after_turn(s, value, t, w, next, out);
    }
    assert(flatten_reaches(s, value, s, value, 0));
}

/// A resume of a flattened generator running the inner generator `c`
/// resumes `c` with `value`. If `c` yields `y`, so does the resume, `c` is
/// kept running where it left off, and nothing else is called. If `c`
/// completes with `seed`, it is dropped, `continue_outer` is called exactly
/// once on `seed`, and the resume goes on as a resume, with the result `w`
/// of that call, of the flattened generator with no inner generator. Both
/// ways round.
pub proof fn flatten_finishes_inner_once<R, G, C, I, F>(
    s: Flatten<G, C, I, F>,
    c: C,
    value: R,
    next: Flatten<G, C, I, F>,
    out: GeneratorState<C::Yield, G::Return>,
) where
    G: Generator<R, Yield = C>,
    C: Generator<R>,
    I: FnMut() -> R,
    F: FnMut(C::Return) -> R,

    requires
        s.current() == Some(c),
    ensures
        s.resume_ensures(value, next, out) <==> {
            ||| {
                &&& out matches GeneratorState::Yield(y) && next.current() matches Some(c2)
                    && c.resume_ensures(value, c2, GeneratorState::Yield(y))
                &&& next.outer() == s.outer()
                &&& flatten_same_continuations(s, next)
                &&& next.inner_calls() == s.inner_calls()
                &&& next.outer_calls() == s.outer_calls()
            }
            ||| exists|c2: C, seed: C::Return, t: Flatten<G, C, I, F>, w: R|
                {
                    &&& #[trigger] c.resume_ensures(value, c2, GeneratorState::Complete(seed))
                    &&& call_ensures(s.continue_outer(), (seed,), w)
                    &&& t.outer() == s.outer()
                    &&& t.current() is None
                    &&& flatten_same_continuations(s, t)
                    &&& t.inner_calls() == s.inner_calls()
                    &&& t.outer_calls() == s.outer_calls() + 1
                    &&& #[trigger] t.resume_ensures(w, next, out)
                }
        },
{
    if s.resume_ensures(value, next, out) {
        let (x, u, k) = choose|x: Flatten<G, C, I, F>, u: R, k: nat|
            flatten_reaches(s, value, x, u, k) && flatten_exit(x, u, next, out);
        if k > 0 {
            flatten_reaches_first(s, value, x, u, k);
            let (t, w) = choose|t: Flatten<G, C, I, F>, w: R|
                flatten_step(s, value, t, w) && flatten_reaches(t, w, x, u, (k - 1) as nat);
            let (c2, seed) = choose|c2: C, seed: C::Return|
                c.resume_ensures(value, c2, GeneratorState::Complete(seed)) && call_ensures(
                    s.continue_outer(),
                    (seed,),
                    w,
                );
            assert(t.resume_ensures(w, next, out));
        }
    }
    assert forall|c2: C, seed: C::Return, t: Flatten<G, C, I, F>, w: R|
        {
            &&& #[trigger] c.resume_ensures(value, c2, GeneratorState::Complete(seed))
            &&& call_ensures(s.continue_outer(), (seed,), w)
            &&& t.outer() == s.outer()
            &&& t.current() is None
            &&& flatten_same_continuations(s, t)
            &&& t.inner_calls() == s.inner_calls()
            &&& t.outer_calls() == s.outer_calls() + 1
            &&& #[trigger] t.resume_ensures(w, next, out)
        } implies s.resume_ensures(value, next, out) by {
        assert(s.current()->0.resume_ensures(value, c2, GeneratorState::Complete(seed)));
        assert(flatten_step(s, value, t, w));
        flatten_resume_after_turn(s, value, t, w, next, out);
    }
    assert(flatten_reaches(s, value, s, value, 0));
}

/// A turn of the loop followed by `k` more reaches what those `k` turns reach.
proof fn flatten_reaches_prepend<R, G, C, I, F>(
    s: Flatten<G, C, I, F>,
    v: R,
    t: Flatten<G, C, I, F>,
    w: R,
    x: Flatten<G, C, I, F>,
    u: R,
    k: nat,
) where
    G: Generator<R, Yield = C>,
    C: Generator<R>,
    I: FnMut() -> R,
    F: FnMut(C::Return) -> R,

    requires
        flatten_step(s, v, t, w),
        flatten_reaches(t, w, x, u, k),
    ensures
        flatten_reaches(s, v, x, u, k + 1),
    decreases k,
{
    if k == 0 {
        assert(flatten_reaches(s, v, s, v, 0));
    } else {
        let (t1, w1) = choose|t1: Flatten<G, C, I, F>, w1: R|
            flatten_reaches(t, w, t1, w1, (k - 1) as nat) && flatten_step(t1, w1, x, u);
        flatten_reaches_prepend(s, v, t, w, t1, w1, (k - 1) as nat);
    }
}

/// A resume that first takes a turn of the loop without returning gives
/// back what a resume from where that turn left off gives back.
proof fn flatten_resume_after_turn<R, G, C, I, F>(
    s: Flatten<G, C, I, F>,
    v: R,
    t: Flatten<G, C, I, F>,
    w: R,
    next: Flatten<G, C, I, F>,
    out: GeneratorState<C::Yield, G::Return>,
) where
    G: Generator<R, Yield = C>,
    C: Generator<R>,
    I: FnMut() -> R,
    F: FnMut(C::Return) -> R,

    requires
        flatten_step(s, v, t, w),
        t.resume_ensures(w, next, out),
    ensures
        s.resume_ensures(v, next, out),
{
    let (x, u, k) = choose|x: Flatten<G, C, I, F>, u: R, k: nat|
        flatten_reaches(t, w, x, u, k) && flatten_exit(x, u, next, out);
    flatten_reaches_prepend(s, v, t, w, x, u, k);
}

/// A run that begins with a turn of the loop without returning (from `s`
/// with `v` to `t` with `w`) is a run from where that turn left off, with
/// `v` in place of the first value `w`.
proof fn flatten_run_after_turn<R, G, C, I, F>(
    s: Flatten<G, C, I, F>,
    v: R,
    t: Flatten<G, C, I, F>,
    w: R,
    rest: Seq<R>,
    outs: Seq<GeneratorState<C::Yield, G::Return>>,
    last: Flatten<G, C, I, F>,
) where
    G: Generator<R, Yield = C>,
    C: Generator<R>,
    I: FnMut() -> R,
    F: FnMut(C::Return) -> R,

    requires
        flatten_step(s, v, t, w),
        generator_runs(t, seq![w] + rest, outs, last),
    ensures
        generator_runs(s, seq![v] + rest, outs, last),
{
    let ins_t = seq![w] + rest;
    let ins_s = seq![v] + rest;
    let t1 = choose|t1: Flatten<G, C, I, F>|
        #![trigger t.resume_ensures(ins_t[0], t1, outs[0])]
        t.resume_ensures(ins_t[0], t1, outs[0]) && generator_runs(
            t1,
            ins_t.drop_first(),
            outs.drop_first(),
            last,
        );
    flatten_resume_after_turn(s, v, t, w, t1, outs[0]);
    assert(ins_t.drop_first() =~= rest);
    assert(ins_s.drop_first() =~= rest);
    assert(s.resume_ensures(ins_s[0], t1, outs[0]));
}

/// While an inner generator `c` runs, first resumed with `w` and then with
/// `us`, the flattened generator yields what `c` yields; the resume in which
/// `c` completes with `seed` goes on to resume the flattened generator
/// without it, `t`, with the value `w2` that `continue_outer` makes of `seed`.
proof fn flatten_run_through_inner<R, G, C, I, F>(
    h: Flatten<G, C, I, F>,
    c: C,
    w: R,
    us: Seq<R>,
    ys: Seq<C::Yield>,
    seed: C::Return,
    c_last: C,
    t: Flatten<G, C, I, F>,
    w2: R,
    rest: Seq<R>,
    outs_t: Seq<GeneratorState<C::Yield, G::Return>>,
    last: Flatten<G, C, I, F>,
) where
    G: Generator<R, Yield = C>,
    C: Generator<R>,
    I: FnMut() -> R,
    F: FnMut(C::Return) -> R,

    requires
        h.current() == Some(c),
        us.len() == ys.len(),
        generator_runs(c, seq![w] + us, yields(ys).push(GeneratorState::Complete(seed)), c_last),
        call_ensures(h.continue_outer(), (seed,), w2),
        t.outer() == h.outer(),
        t.current() is None,
        flatten_same_continuations(h, t),
        t.inner_calls() == h.inner_calls(),
        t.outer_calls() == h.outer_calls() + 1,
        generator_runs(t, seq![w2] + rest, outs_t, last),
    ensures
        generator_runs(h, seq![w] + us + rest, yields(ys) + outs_t, last),
    decreases ys.len(),
{
    let ins = seq![w] + us;
    let outs = yields::<C::Yield, C::Return>(ys).push(GeneratorState::Complete(seed));
    let c1 = choose|c1: C|
        #![trigger c.resume_ensures(ins[0], c1, outs[0])]
        c.resume_ensures(ins[0], c1, outs[0]) && generator_runs(
            c1,
            ins.drop_first(),
            outs.drop_first(),
            c_last,
        );
    if ys.len() == 0 {
        assert(h.current()->0.resume_ensures(w, c1, GeneratorState::Complete(seed)));
        assert(flatten_step(h, w, t, w2));
        flatten_run_after_turn(h, w, t, w2, rest, outs_t, last);
        assert(seq![w] + us + rest =~= seq![w] + rest);
        assert(yields::<C::Yield, G::Return>(ys) + outs_t =~= outs_t);
    } else {
        let h1 = Flatten {
            g: h.g,
            current: Some(c1),
            continue_inner: h.continue_inner,
            continue_outer: h.continue_outer,
        };
        assert(ins.drop_first() =~= seq![us[0]] + us.drop_first());
        assert(outs.drop_first() =~= yields::<C::Yield, C::Return>(ys.drop_first()).push(
            GeneratorState::Complete(seed),
        ));
        flatten_run_through_inner(
            h1,
            c1,
            us[0],
            us.drop_first(),
            ys.drop_first(),
            seed,
            c_last,
            t,
            w2,
            rest,
            outs_t,
            last,
        );
        let all_in = seq![w] + us + rest;
        let all_out = yields::<C::Yield, G::Return>(ys) + outs_t;
        assert(all_in.drop_first() =~= seq![us[0]] + us.drop_first() + rest);
        assert(all_out.drop_first() =~= yields::<C::Yield, G::Return>(ys.drop_first()) + outs_t);
        assert(flatten_reaches(h, w, h, w, 0));
        assert(h.resume_ensures(all_in[0], h1, all_out[0]));
    }
}

/// A whole run of a flattened generator. Say the caller resumes it first
/// with `v0` and then with the values in `uss`, in turn. When the outer
/// generator, resumed with `v0` and then with `backs`, yields the inner
/// generators `cs` and then completes with `r`; each inner generator
/// `cs[i]`, resumed with `firsts[i]` and then with `uss[i]`, yields `yss[i]`
/// and then completes with `seeds[i]`; `continue_inner` can give
/// `firsts[i]` and `continue_outer` can make `backs[i]` of `seeds[i]`; then
/// the flattened generator yields everything in `yss`, in order, and then
/// completes with `r`. No resume gives anything back when an inner
/// generator completes or the outer one yields. It is left with the outer
/// generator where its run ended and no inner generator.
pub proof fn flatten_run<R, G, C, I, F>(
    h: Flatten<G, C, I, F>,
    v0: R,
    cs: Seq<C>,
    backs: Seq<R>,
    r: G::Return,
    g_last: G,
    firsts: Seq<R>,
    uss: Seq<Seq<R>>,
    yss: Seq<Seq<C::Yield>>,
    seeds: Seq<C::Return>,
    c_lasts: Seq<C>,
) where
    G: Generator<R, Yield = C>,
    C: Generator<R>,
    I: FnMut() -> R,
    F: FnMut(C::Return) -> R,

    requires
        h.current() is None,
        backs.len() == cs.len(),
        firsts.len() == cs.len(),
        uss.len() == cs.len(),
        yss.len() == cs.len(),
        seeds.len() == cs.len(),
        c_lasts.len() == cs.len(),
        generator_runs(h.outer(), seq![v0] + backs, yields(cs).push(GeneratorState::Complete(r)), g_last),
        forall|i: int| 0 <= i < cs.len() ==> (#[trigger] uss[i]).len() == yss[i].len(),
        forall|i: int|
            0 <= i < cs.len() ==> generator_runs(
                #[trigger] cs[i],
                seq![firsts[i]] + uss[i],
                yields(yss[i]).push(GeneratorState::Complete(seeds[i])),
                c_lasts[i],
            ),
        forall|i: int| 0 <= i < cs.len() ==> call_ensures(h.continue_inner(), (), #[trigger] firsts[i]),
        forall|i: int|
            0 <= i < cs.len() ==> call_ensures(h.continue_outer(), (#[trigger] seeds[i],), backs[i]),
    ensures
        exists|last: Flatten<G, C, I, F>|
            {
                &&& last.outer() == g_last
                &&& last.current() is None
                &&& flatten_same_continuations(h, last)
                &&& last.inner_calls() == h.inner_calls() + cs.len()
                &&& last.outer_calls() == h.outer_calls() + cs.len()
                &&& generator_runs(
                    h,
                    seq![v0] + uss.flatten(),
                    yields(yss.flatten()).push(GeneratorState::Complete(r)),
                    last,
                )
            },
    decreases cs.len(),
{
    let ins = seq![v0] + backs;
    let outs = yields::<C, G::Return>(cs).push(GeneratorState::Complete(r));
    let g1 = choose|g1: G|
        #![trigger h.outer().resume_ensures(ins[0], g1, outs[0])]
        h.outer().resume_ensures(ins[0], g1, outs[0]) && generator_runs(
            g1,
            ins.drop_first(),
            outs.drop_first(),
            g_last,
        );
    if cs.len() == 0 {
        let last = Flatten {
            g: g_last,
            current: None,
            continue_inner: h.continue_inner,
            continue_outer: h.continue_outer,
        };
        assert(flatten_reaches(h, v0, h, v0, 0));
        let fins = seq![v0] + uss.flatten();
        let fouts = yields::<C::Yield, G::Return>(yss.flatten()).push(GeneratorState::Complete(r));
        assert(fins =~= seq![v0]);
        assert(fouts =~= seq![GeneratorState::Complete(r)]);
        assert(h.resume_ensures(fins[0], last, fouts[0]));
        assert(generator_runs(last, fins.drop_first(), fouts.drop_first(), last));
    } else {
        let c = cs[0];
        let hc = Flatten {
            g: g1,
            current: Some(c),
            continue_inner: h.continue_inner.called(1),
            continue_outer: h.continue_outer,
        };
        let t = Flatten {
            g: g1,
            current: None,
            continue_inner: h.continue_inner.called(1),
            continue_outer: h.continue_outer.called(1),
        };
        called_counts(h.continue_inner, 1);
        called_counts(h.continue_outer, 1);
        assert(ins.drop_first() =~= seq![backs[0]] + backs.drop_first());
        assert(outs.drop_first() =~= yields::<C, G::Return>(cs.drop_first()).push(GeneratorState::Complete(r)));
        assert forall|i: int| 0 <= i < cs.drop_first().len() implies (
        #[trigger] uss.drop_first()[i]).len() == yss.drop_first()[i].len() by {
            assert(uss.drop_first()[i] == uss[i + 1]);
        }
        assert forall|i: int| 0 <= i < cs.drop_first().len() implies generator_runs(
            #[trigger] cs.drop_first()[i],
            seq![firsts.drop_first()[i]] + uss.drop_first()[i],
            yields(yss.drop_first()[i]).push(GeneratorState::Complete(seeds.drop_first()[i])),
            c_lasts.drop_first()[i],
        ) by {
            assert(cs.drop_first()[i] == cs[i + 1]);
        }
        assert forall|i: int| 0 <= i < cs.drop_first().len() implies call_ensures(
            t.continue_inner(),
            (),
            #[trigger] firsts.drop_first()[i],
        ) by {
            assert(firsts.drop_first()[i] == firsts[i + 1]);
        }
        assert forall|i: int| 0 <= i < cs.drop_first().len() implies call_ensures(
            t.continue_outer(),
            (#[trigger] seeds.drop_first()[i],),
            backs.drop_first()[i],
        ) by {
            assert(seeds.drop_first()[i] == seeds[i + 1]);
        }
        flatten_run(
            t,
            backs[0],
            cs.drop_first(),
            backs.drop_first(),
            r,
            g_last,
            firsts.drop_first(),
            uss.drop_first(),
            yss.drop_first(),
            seeds.drop_first(),
            c_lasts.drop_first(),
        );
        let rest_ys = yss.drop_first().flatten();
        let rest_us = uss.drop_first().flatten();
        let last = choose|last: Flatten<G, C, I, F>|
            {
                &&& last.outer() == g_last
                &&& last.current() is None
                &&& flatten_same_continuations(t, last)
                &&& last.inner_calls() == t.inner_calls() + cs.drop_first().len()
                &&& last.outer_calls() == t.outer_calls() + cs.drop_first().len()
                &&& generator_runs(
                    t,
                    seq![backs[0]] + rest_us,
                    yields(rest_ys).push(GeneratorState::Complete(r)),
                    last,
                )
            };
        let outs_t = yields::<C::Yield, G::Return>(rest_ys).push(GeneratorState::Complete(r));
        assert(uss[0].len() == yss[0].len());
        assert(generator_runs(
            cs[0],
            seq![firsts[0]] + uss[0],
            yields(yss[0]).push(GeneratorState::Complete(seeds[0])),
            c_lasts[0],
        ));
        assert(call_ensures(h.continue_outer(), (seeds[0],), backs[0]));
        flatten_run_through_inner(
            hc,
            c,
            firsts[0],
            uss[0],
            yss[0],
            seeds[0],
            c_lasts[0],
            t,
            backs[0],
            rest_us,
            outs_t,
            last,
        );
        assert(call_ensures(h.continue_inner(), (), firsts[0]));
        assert(flatten_step(h, v0, hc, firsts[0]));
        assert(seq![firsts[0]] + uss[0] + rest_us =~= seq![firsts[0]] + uss.flatten());
        flatten_run_after_turn(h, v0, hc, firsts[0], uss.flatten(), yields(yss[0]) + outs_t, last);
        assert(yields::<C::Yield, G::Return>(yss[0]) + outs_t =~= yields::<C::Yield, G::Return>(
            yss.flatten(),
        ).push(GeneratorState::Complete(r)));
    }
}

/// Yields one value, then completes with `()` on every later resume.
pub struct Once<Y>(Option<Y>);

impl<Y> Once<Y> {
    /// The value still to be yielded, if any.
    pub closed spec fn pending(&self) -> Option<Y> {
        self.0
    }
}

impl<Y> Generator<()> for Once<Y> {
    type Yield = Y;
    type Return = ();

    open spec fn resume_requires(&self, value: ()) -> bool {
        true
    }

    open spec fn resume_ensures(&self, value: (), next: Self, out: GeneratorState<Y, ()>) -> bool {
        &&& next.pending() is None
        &&& out == match self.pending() {
            Some(y) => GeneratorState::<Y, ()>::Yield(y),
            None => GeneratorState::Complete(()),
        }
    }

    fn resume(&mut self, _value: ()) -> (out: GeneratorState<Y, ()>) {
        if let Some(y) = self.0.take() {
            GeneratorState::Yield(y)
        } else {
            GeneratorState::Complete(())
        }
    }
}

/// On its first resume, yields what a function makes of the resume value;
/// then completes with `()` on every later resume.
pub struct OnceWith<F>(Option<F>);

impl<F> OnceWith<F> {
    /// The function, until it has been called.
    pub closed spec fn pending(&self) -> Option<F> {
        self.0
    }
}

impl<F, R, Y> Generator<R> for OnceWith<F> where F: FnOnce(R) -> Y {
    type Yield = Y;
    type Return = ();

    open spec fn resume_requires(&self, value: R) -> bool {
        self.pending() matches Some(f) ==> call_requires(f, (value,))
    }

    open spec fn resume_ensures(&self, value: R, next: Self, out: GeneratorState<Y, ()>) -> bool {
        &&& next.pending() is None
        &&& match self.pending() {
            Some(f) => out matches GeneratorState::Yield(y) && call_ensures(f, (value,), y),
            None => out == GeneratorState::<Y, ()>::Complete(()),
        }
    }

    fn resume(&mut self, value: R) -> (out: GeneratorState<Y, ()>) {
        if let Some(f) = self.0.take() {
            GeneratorState::Yield(f(value))
        } else {
            GeneratorState::Complete(())
        }
    }
}

/// A generator that yields `yielded` once, then completes.
pub fn once<Y>(yielded: Y) -> (g: Once<Y>)
    ensures
        g.pending() == Some(yielded),
{
    Once(Some(yielded))
}

/// A generator that, on its first resume, yields `f` applied to the resume
/// value, then completes.
pub fn once_with<F, R, Y>(f: F) -> (g: OnceWith<F>) where F: FnOnce(R) -> Y
    ensures
        g.pending() == Some(f),
{
    OnceWith(Some(f))
}

/// Transforms every resume value with a function before it reaches the generator.
pub struct Receiving<G, F> {
    g: G,
    f: F,
}

impl<G, F> Receiving<G, F> {
    /// The generator resumed with the transformed values.
    pub closed spec fn inner(&self) -> G {
        self.g
    }

    /// The function applied to every resume value.
    pub closed spec fn mapper(&self) -> F {
        self.f
    }
}

impl<R1, R2, G, F> Generator<R1> for Receiving<G, F> where F: FnMut(R1) -> R2, G: Generator<R2> {
    type Yield = G::Yield;
    type Return = G::Return;

    open spec fn resume_requires(&self, value: R1) -> bool {
        &&& call_requires(self.mapper(), (value,))
        &&& forall|r2: R2| #[trigger] call_ensures(self.mapper(), (value,), r2) ==> self.inner().resume_requires(r2)
    }

    open spec fn resume_ensures(
        &self,
        value: R1,
        next: Self,
        out: GeneratorState<G::Yield, G::Return>,
    ) -> bool {
        &&& next.mapper() == self.mapper()
        &&& exists|r2: R2|
            #![trigger self.inner().resume_ensures(r2, next.inner(), out)]
            call_ensures(self.mapper(), (value,), r2) && self.inner().resume_ensures(r2, next.inner(), out)
    }

    fn resume(&mut self, value: R1) -> (out: GeneratorState<G::Yield, G::Return>) {
        let r2 = (self.f)(value);
        let ghost r20 = r2;
        let out = self.g.resume(r2);
        assert(old(self).inner().resume_ensures(r20, self.inner(), out));
        out
    }
}

} // verus!
