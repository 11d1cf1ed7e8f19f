use vstd::prelude::*;

verus! {

/// What one resume of a generator gives back: an item it yields, or the
/// value it completes with.
#[derive(Debug)]
pub enum GeneratorState<Y, R> {
    Yield(Y),
    Complete(R),
}

/// `s` with the mathematical function `f` applied to a yielded item.
pub open spec fn map_yield_by<Y, R, U>(s: GeneratorState<Y, R>, f: spec_fn(Y) -> U) -> GeneratorState<U, R> {
    match s {
        GeneratorState::Yield(y) => GeneratorState::Yield(f(y)),
        GeneratorState::Complete(r) => GeneratorState::Complete(r),
    }
}

/// `s` with the mathematical function `f` applied to a completion value.
pub open spec fn map_complete_by<Y, R, V>(s: GeneratorState<Y, R>, f: spec_fn(R) -> V) -> GeneratorState<Y, V> {
    match s {
        GeneratorState::Yield(y) => GeneratorState::Yield(y),
        GeneratorState::Complete(r) => GeneratorState::Complete(f(r)),
    }
}

impl<Y, R> GeneratorState<Y, R> {
    /// Applies `f` to a yielded item; a completion passes through unchanged.
    pub fn map_yield<U>(self, f: impl FnOnce(Y) -> U) -> (out: GeneratorState<U, R>)
        requires
            self matches GeneratorState::Yield(y) ==> f.requires((y,)),
        ensures
            match self {
                GeneratorState::Yield(y) => out matches GeneratorState::Yield(u) && f.ensures((y,), u),
                GeneratorState::Complete(r) => out == GeneratorState::<U, R>::Complete(r),
            },
            forall|sf: spec_fn(Y) -> U|
                (forall|y: Y, u: U| f.ensures((y,), u) ==> u == sf(y)) ==> out == #[trigger] map_yield_by(
                    self,
                    sf,
                ),
    {
        match self {
            GeneratorState::Yield(y) => GeneratorState::Yield(f(y)),
            GeneratorState::Complete(r) => GeneratorState::Complete(r),
        }
    }

    /// Applies `f` to the completion value; a yielded item passes through unchanged.
    pub fn map_complete<U>(self, f: impl FnOnce(R) -> U) -> (out: GeneratorState<Y, U>)
        requires
            self matches GeneratorState::Complete(r) ==> f.requires((r,)),
        ensures
            match self {
                GeneratorState::Yield(y) => out == GeneratorState::<Y, U>::Yield(y),
                GeneratorState::Complete(r) => out matches GeneratorState::Complete(u) && f.ensures((r,), u),
            },
            forall|sf: spec_fn(R) -> U|
                (forall|r: R, u: U| f.ensures((r,), u) ==> u == sf(r)) ==> out == #[trigger] map_complete_by(
                    self,
                    sf,
                ),
    {
        match self {
            GeneratorState::Yield(y) => GeneratorState::Yield(y),
            GeneratorState::Complete(r) => GeneratorState::Complete(f(r)),
        }
    }
}

/// Mapping the yielded item with the identity changes nothing.
pub proof fn map_yield_identity<Y, R>(s: GeneratorState<Y, R>)
    ensures
        map_yield_by(s, |y: Y| y) == s,
{
}

/// Mapping the yielded item with `f` and then with `g` is mapping it with
/// `g` after `f`.
pub proof fn map_yield_composes<Y, R, U, V>(s: GeneratorState<Y, R>, f: spec_fn(Y) -> U, g: spec_fn(U) -> V)
    ensures
        map_yield_by(map_yield_by(s, f), g) == map_yield_by(s, |y: Y| g(f(y))),
{
}

/// Mapping the completion value with the identity changes nothing.
pub proof fn map_complete_identity<Y, R>(s: GeneratorState<Y, R>)
    ensures
        map_complete_by(s, |r: R| r) == s,
{
}

/// Mapping the completion value with `f` and then with `g` is mapping it
/// with `g` after `f`.
pub proof fn map_complete_composes<Y, R, U, V>(s: GeneratorState<Y, R>, f: spec_fn(R) -> U, g: spec_fn(U) -> V)
    ensures
        map_complete_by(map_complete_by(s, f), g) == map_complete_by(s, |r: R| g(f(r))),
{
}

/// Mapping the yielded item and mapping the completion value commute.
pub proof fn map_yield_and_map_complete_commute<Y, R, U, V>(
    s: GeneratorState<Y, R>,
    f: spec_fn(Y) -> U,
    g: spec_fn(R) -> V,
)
    ensures
        map_complete_by(map_yield_by(s, f), g) == map_yield_by(map_complete_by(s, g), f),
{
}

} // verus!
