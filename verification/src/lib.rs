use vstd::prelude::*;

pub mod counted;
pub mod ext;
pub mod fn_trait;
pub mod fut_generator;
pub mod gen_context;
pub mod generator_state;
pub mod laws;

pub use crate::fn_trait::FnOnceOutput;
pub use crate::generator_state::GeneratorState;

verus! {

/// A resumable computation: each `resume` hands it a value and gets back
/// either a yielded item or, once it has finished, its final result.
pub trait Generator<R = ()> {
    type Yield;
    type Return;

    /// What must hold of the generator and the resume value for a resume to succeed.
    spec fn resume_requires(&self, value: R) -> bool;

    /// The relation between the state before a resume, the value handed in,
    /// the state after it and what it gives back.
    spec fn resume_ensures(
        &self,
        value: R,
        next: Self,
        out: GeneratorState<Self::Yield, Self::Return>,
    ) -> bool where Self: Sized;

    fn resume(&mut self, value: R) -> (out: GeneratorState<Self::Yield, Self::Return>) where Self: Sized
        requires
            old(self).resume_requires(value),
        ensures
            old(self).resume_ensures(value, *final(self), out),
    ;
}

/// Resuming `g` with `inputs` in turn can give back `outs`, leaving `last`.
pub open spec fn generator_runs<R, G: Generator<R>>(
    g: G,
    inputs: Seq<R>,
    outs: Seq<GeneratorState<G::Yield, G::Return>>,
    last: G,
) -> bool
    decreases inputs.len(),
{
    &&& inputs.len() == outs.len()
    &&& if inputs.len() == 0 {
        last == g
    } else {
        exists|g1: G|
            #![trigger g.resume_ensures(inputs[0], g1, outs[0])]
            g.resume_ensures(inputs[0], g1, outs[0]) && generator_runs(
                g1,
                inputs.drop_first(),
                outs.drop_first(),
                last,
            )
    }
}

/// Each of `ys`, yielded.
pub open spec fn yields<Y, T>(ys: Seq<Y>) -> Seq<GeneratorState<Y, T>> {
    ys.map_values(|y: Y| GeneratorState::Yield(y))
}

/// A run followed by a run from where the first one left off is a run.
pub proof fn generator_runs_append<R, G: Generator<R>>(
    g: G,
    a: Seq<R>,
    oa: Seq<GeneratorState<G::Yield, G::Return>>,
    m: G,
    b: Seq<R>,
    ob: Seq<GeneratorState<G::Yield, G::Return>>,
    last: G,
)
    requires
        generator_runs(g, a, oa, m),
        generator_runs(m, b, ob, last),
    ensures
        generator_runs(g, a + b, oa + ob, last),
    decreases a.len(),
{
    if a.len() == 0 {
        assert(a + b =~= b);
        assert(oa + ob =~= ob);
    } else {
        let g1 = choose|g1: G|
            #![trigger g.resume_ensures(a[0], g1, oa[0])]
            g.resume_ensures(a[0], g1, oa[0]) && generator_runs(g1, a.drop_first(), oa.drop_first(), m);
        generator_runs_append(g1, a.drop_first(), oa.drop_first(), m, b, ob, last);
        assert((a + b).drop_first() =~= a.drop_first() + b);
        assert((oa + ob).drop_first() =~= oa.drop_first() + ob);
        assert((a + b)[0] == a[0]);
        assert((oa + ob)[0] == oa[0]);
    }
}

/// A boxed generator resumes as the generator in the box does.
impl<R, G: Generator<R>> Generator<R> for Box<G> {
    type Yield = G::Yield;
    type Return = G::Return;

    open spec fn resume_requires(&self, value: R) -> bool {
        (**self).resume_requires(value)
    }

    open spec fn resume_ensures(
        &self,
        value: R,
        next: Self,
        out: GeneratorState<G::Yield, G::Return>,
    ) -> bool {
        (**self).resume_ensures(value, *next, out)
    }

    fn resume(&mut self, value: R) -> (out: GeneratorState<G::Yield, G::Return>) {
        (**self).resume(value)
    }
}

} // verus!
