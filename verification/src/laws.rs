use vstd::prelude::*;

use crate::ext::{AndThen, Compose, Either, MapComplete, Once, OnceWith};
use crate::{generator_runs, yields, Generator, GeneratorState};

verus! {

/// A `Once` holding `y` yields `y` on its first resume and completes with
/// `()` on the second, holding nothing afterwards.
pub proof fn once_yields_once<Y>(
    s0: Once<Y>,
    y: Y,
    s1: Once<Y>,
    o1: GeneratorState<Y, ()>,
    s2: Once<Y>,
    o2: GeneratorState<Y, ()>,
)
    requires
        s0.pending() == Some(y),
        s0.resume_ensures((), s1, o1),
        s1.resume_ensures((), s2, o2),
    ensures
        o1 == GeneratorState::<Y, ()>::Yield(y),
        o2 == GeneratorState::<Y, ()>::Complete(()),
        s2.pending() is None,
{
}

/// A `Once` that has handed out its value completes on every resume and
/// stays empty.
pub proof fn once_stays_done<Y>(s: Once<Y>, next: Once<Y>, out: GeneratorState<Y, ()>)
    requires
        s.pending() is None,
        s.resume_ensures((), next, out),
    ensures
        out == GeneratorState::<Y, ()>::Complete(()),
        next.pending() is None,
{
}

/// A `OnceWith` holding `f` yields what `f` makes of its first resume value,
/// then completes with `()` on the second resume.
pub proof fn once_with_yields_once<F, R, Y>(
    s0: OnceWith<F>,
    f: F,
    v1: R,
    s1: OnceWith<F>,
    o1: GeneratorState<Y, ()>,
    v2: R,
    s2: OnceWith<F>,
    o2: GeneratorState<Y, ()>,
) where F: FnOnce(R) -> Y
    requires
        s0.pending() == Some(f),
        s0.resume_ensures(v1, s1, o1),
        s1.resume_ensures(v2, s2, o2),
    ensures
        o1 matches GeneratorState::Yield(y) && call_ensures(f, (v1,), y),
        o2 == GeneratorState::<Y, ()>::Complete(()),
        s2.pending() is None,
{
}

/// Once a chain has moved on to its second generator, it stays there: every
/// resume goes to the second generator and leaves the chain on it.
pub proof fn and_then_stays_after<G1, F, G2, R>(
    g: G2,
    value: R,
    next: AndThen<G1, F, G2>,
    out: GeneratorState<G1::Yield, G2::Return>,
) where
    G1: Generator<R>,
    F: FnOnce(G1::Return) -> (G2, R),
    G2: Generator<R, Yield = G1::Yield>,

    requires
        (AndThen::<G1, F, G2>::After { g }).resume_ensures(value, next, out),
    ensures
        next matches AndThen::After { g: g2 } && g.resume_ensures(value, g2, out),
{
}

/// A chain still on its first generator either stays on it, handing out what
/// it yields, or moves on to the second generator for good; it never
/// completes before the second generator does.
pub proof fn and_then_switches_once<G1, F, G2, R>(
    g: G1,
    f: Option<F>,
    value: R,
    next: AndThen<G1, F, G2>,
    out: GeneratorState<G1::Yield, G2::Return>,
) where
    G1: Generator<R>,
    F: FnOnce(G1::Return) -> (G2, R),
    G2: Generator<R, Yield = G1::Yield>,

    requires
        (AndThen::<G1, F, G2>::Before { g, f }).resume_ensures(value, next, out),
    ensures
        next is Before ==> out is Yield && next->Before_f == f,
        out is Complete ==> next is After,
{
}

/// The function of a `MapComplete` is used at most once: a resume that
/// completes leaves no function behind, and a `MapComplete` without its
/// function can only be resumed where its generator does not complete.
pub proof fn map_complete_applies_once<G, F, R, U>(
    s: MapComplete<G, F>,
    value: R,
    next: MapComplete<G, F>,
    out: GeneratorState<G::Yield, U>,
) where G: Generator<R>, F: FnOnce(G::Return) -> U
    requires
        s.resume_ensures(value, next, out),
    ensures
        out is Complete ==> next.mapper() is None,
        out is Yield ==> next.mapper() == s.mapper(),
        s.mapper() is None && s.resume_requires(value) ==> forall|g: G, r: G::Return|
            !s.inner().resume_ensures(value, g, GeneratorState::Complete(r)),
{
}

/// When the first generator of a composition completes, the composition
/// completes with `Left` of its result and the second generator is not
/// resumed; `Right` results come only from the second generator, resumed
/// with an item the first one yielded.
pub proof fn compose_completion_source<A, B, R>(
    s: Compose<A, B>,
    value: R,
    next: Compose<A, B>,
    out: GeneratorState<B::Yield, Either<A::Return, B::Return>>,
) where A: Generator<R>, B: Generator<A::Yield>
    requires
        s.resume_ensures(value, next, out),
    ensures
        out matches GeneratorState::Complete(Either::Left(x)) ==> {
            &&& next.second() == s.second()
            &&& s.first().resume_ensures(value, next.first(), GeneratorState::Complete(x))
        },
        out matches GeneratorState::Complete(Either::Right(z)) ==> exists|y: A::Yield|
            #![trigger s.first().resume_ensures(value, next.first(), GeneratorState::Yield(y))]
            s.first().resume_ensures(value, next.first(), GeneratorState::Yield(y))
                && s.second().resume_ensures(y, next.second(), GeneratorState::Complete(z)),
{
}

/// A chain on its second generator runs exactly as that generator does.
pub proof fn and_then_after_runs<G1, F, G2, R>(
    g: G2,
    inputs: Seq<R>,
    outs: Seq<GeneratorState<G1::Yield, G2::Return>>,
    last: G2,
) where
    G1: Generator<R>,
    F: FnOnce(G1::Return) -> (G2, R),
    G2: Generator<R, Yield = G1::Yield>,

    requires
        generator_runs(g, inputs, outs, last),
    ensures
        generator_runs(
            AndThen::<G1, F, G2>::After { g },
            inputs,
            outs,
            AndThen::<G1, F, G2>::After { g: last },
        ),
    decreases inputs.len(),
{
    if inputs.len() > 0 {
        let g1 = choose|g1: G2|
            #![trigger g.resume_ensures(inputs[0], g1, outs[0])]
            g.resume_ensures(inputs[0], g1, outs[0]) && generator_runs(
                g1,
                inputs.drop_first(),
                outs.drop_first(),
                last,
            );
        and_then_after_runs::<G1, F, G2, R>(g1, inputs.drop_first(), outs.drop_first(), last);
        assert((AndThen::<G1, F, G2>::After { g }).resume_ensures(
            inputs[0],
            AndThen::<G1, F, G2>::After { g: g1 },
            outs[0],
        ));
    }
}

/// A whole run of a chain: when the first generator, resumed with `vs1`,
/// yields `ys1` and then completes with `r`, and the function makes of `r`
/// the second generator `g2` and its first resume value `w`, then the chain,
/// resumed with `vs1` followed by `vs2`, yields `ys1` and then gives back
/// what `g2` gives back when resumed with `w` followed by `vs2`: the
/// function is called once, in the resume in which the first generator
/// completes, and that same resume goes on to `g2`.
pub proof fn and_then_run<G1, F, G2, R>(
    g1: G1,
    f: F,
    vs1: Seq<R>,
    ys1: Seq<G1::Yield>,
    r: G1::Return,
    g1_last: G1,
    g2: G2,
    w: R,
    vs2: Seq<R>,
    outs2: Seq<GeneratorState<G1::Yield, G2::Return>>,
    g2_last: G2,
) where
    G1: Generator<R>,
    F: FnOnce(G1::Return) -> (G2, R),
    G2: Generator<R, Yield = G1::Yield>,

    requires
        generator_runs(g1, vs1, yields(ys1).push(GeneratorState::Complete(r)), g1_last),
        call_ensures(f, (r,), (g2, w)),
        generator_runs(g2, seq![w] + vs2, outs2, g2_last),
    ensures
        generator_runs(
            AndThen::<G1, F, G2>::Before { g: g1, f: Some(f) },
            vs1 + vs2,
            yields(ys1) + outs2,
            AndThen::<G1, F, G2>::After { g: g2_last },
        ),
    decreases ys1.len(),
{
    let outs1 = yields::<G1::Yield, G1::Return>(ys1).push(GeneratorState::Complete(r));
    let start = AndThen::<G1, F, G2>::Before { g: g1, f: Some(f) };
    let g1n = choose|g1n: G1|
        #![trigger g1.resume_ensures(vs1[0], g1n, outs1[0])]
        g1.resume_ensures(vs1[0], g1n, outs1[0]) && generator_runs(
            g1n,
            vs1.drop_first(),
            outs1.drop_first(),
            g1_last,
        );
    let all_in = vs1 + vs2;
    let all_out = yields::<G1::Yield, G2::Return>(ys1) + outs2;
    if ys1.len() == 0 {
        let ins2 = seq![w] + vs2;
        let g3 = choose|g3: G2|
            #![trigger g2.resume_ensures(ins2[0], g3, outs2[0])]
            g2.resume_ensures(ins2[0], g3, outs2[0]) && generator_runs(
                g3,
                ins2.drop_first(),
                outs2.drop_first(),
                g2_last,
            );
        assert(ins2.drop_first() =~= vs2);
        assert(all_in.drop_first() =~= vs2);
        and_then_after_runs::<G1, F, G2, R>(g3, vs2, outs2.drop_first(), g2_last);
        assert(call_ensures(start->Before_f->0, (r,), (g2, w)));
        assert(start->Before_g.resume_ensures(all_in[0], g1n, GeneratorState::Complete(r)));
        assert(start.resume_ensures(all_in[0], AndThen::<G1, F, G2>::After { g: g3 }, all_out[0]));
    } else {
        let y = ys1[0];
        assert(outs1.drop_first() =~= yields::<G1::Yield, G1::Return>(ys1.drop_first()).push(
            GeneratorState::Complete(r),
        ));
        and_then_run::<G1, F, G2, R>(g1n, f, vs1.drop_first(), ys1.drop_first(), r, g1_last, g2, w, vs2, outs2, g2_last);
        let next = AndThen::<G1, F, G2>::Before { g: g1n, f: Some(f) };
        assert(all_in.drop_first() =~= vs1.drop_first() + vs2);
        assert(all_out.drop_first() =~= yields::<G1::Yield, G2::Return>(ys1.drop_first()) + outs2);
        assert(start.resume_ensures(all_in[0], next, all_out[0]));
    }
}

/// Every run of a chain on its second generator is a run of that generator.
pub proof fn and_then_after_runs_back<G1, F, G2, R>(
    g: G2,
    inputs: Seq<R>,
    outs: Seq<GeneratorState<G1::Yield, G2::Return>>,
    last: AndThen<G1, F, G2>,
) where
    G1: Generator<R>,
    F: FnOnce(G1::Return) -> (G2, R),
    G2: Generator<R, Yield = G1::Yield>,

    requires
        generator_runs(AndThen::<G1, F, G2>::After { g }, inputs, outs, last),
    ensures
        last matches AndThen::After { g: g_last } && generator_runs(g, inputs, outs, g_last),
    decreases inputs.len(),
{
    if inputs.len() > 0 {
        let s1 = choose|s1: AndThen<G1, F, G2>|
            #![trigger (AndThen::<G1, F, G2>::After { g }).resume_ensures(inputs[0], s1, outs[0])]
            (AndThen::<G1, F, G2>::After { g }).resume_ensures(inputs[0], s1, outs[0]) && generator_runs(
                s1,
                inputs.drop_first(),
                outs.drop_first(),
                last,
            );
        let g1 = s1->After_g;
        and_then_after_runs_back::<G1, F, G2, R>(g1, inputs.drop_first(), outs.drop_first(), last);
    }
}

/// The shape of a run of a chain in which, in its `n`-th resume, the first
/// generator `g1` completed with `r` after yielding `ys1` (everything the
/// chain gave back before, over the first `n` resume values, leaving
/// `g1_last`); the function made of `r` the second generator `g2` and its
/// first resume value `w`; and the chain's outcomes from that resume on are
/// those of `g2` resumed with `w` and then with the chain's later resume
/// values, leaving `g2_last`.
pub open spec fn and_then_switched_at<G1, F, G2, R>(
    g1: G1,
    f: Option<F>,
    inputs: Seq<R>,
    outs: Seq<GeneratorState<G1::Yield, G2::Return>>,
    g2_last: G2,
    n: int,
    ys1: Seq<G1::Yield>,
    r: G1::Return,
    g1_last: G1,
    g2: G2,
    w: R,
) -> bool where
    G1: Generator<R>,
    F: FnOnce(G1::Return) -> (G2, R),
    G2: Generator<R, Yield = G1::Yield>,
 {
    &&& 1 <= n <= inputs.len()
    &&& ys1.len() == n - 1
    &&& outs.take(n - 1) == yields::<G1::Yield, G2::Return>(ys1)
    &&& generator_runs(g1, inputs.take(n), yields(ys1).push(GeneratorState::Complete(r)), g1_last)
    &&& f is Some
    &&& call_ensures(f->0, (r,), (g2, w))
    &&& generator_runs(g2, seq![w] + inputs.skip(n), outs.skip(n - 1), g2_last)
}

/// Every run of a chain started on its first generator `g1` is of one of two
/// shapes. Either the chain is still on `g1`, with the same function, and
/// everything it gave back was yielded by `g1` in a run over the same
/// resume values. Or, in its `n`-th resume, `g1` completed with `r` after
/// yielding everything the chain gave back before; the function made of `r`
/// the second generator and its first resume value `w`; and the chain's
/// outcomes from that resume on are those of that generator resumed with
/// `w` and then with the chain's later resume values.
pub proof fn and_then_run_shape<G1, F, G2, R>(
    g1: G1,
    f: Option<F>,
    inputs: Seq<R>,
    outs: Seq<GeneratorState<G1::Yield, G2::Return>>,
    last: AndThen<G1, F, G2>,
) where
    G1: Generator<R>,
    F: FnOnce(G1::Return) -> (G2, R),
    G2: Generator<R, Yield = G1::Yield>,

    requires
        generator_runs(AndThen::<G1, F, G2>::Before { g: g1, f }, inputs, outs, last),
    ensures
        match last {
            AndThen::Before { g: g1_last, f: f_last } => {
                &&& f_last == f
                &&& exists|ys: Seq<G1::Yield>|
                    #![trigger yields::<G1::Yield, G2::Return>(ys)]
                    outs == yields::<G1::Yield, G2::Return>(ys) && generator_runs(
                        g1,
                        inputs,
                        yields(ys),
                        g1_last,
                    )
            },
            AndThen::After { g: g2_last } => exists|n: int, ys1: Seq<G1::Yield>, r: G1::Return, g1_last: G1, g2: G2, w: R|
                #[trigger] and_then_switched_at(g1, f, inputs, outs, g2_last, n, ys1, r, g1_last, g2, w),
        },
    decreases inputs.len(),
{
    let start = AndThen::<G1, F, G2>::Before { g: g1, f };
    if inputs.len() == 0 {
        let ys = Seq::<G1::Yield>::empty();
        assert(outs == yields::<G1::Yield, G2::Return>(ys) && generator_runs(g1, inputs, yields(ys), last->Before_g));
    } else {
        let s1 = choose|s1: AndThen<G1, F, G2>|
            #![trigger start.resume_ensures(inputs[0], s1, outs[0])]
            start.resume_ensures(inputs[0], s1, outs[0]) && generator_runs(
                s1,
                inputs.drop_first(),
                outs.drop_first(),
                last,
            );
        match s1 {
            AndThen::Before { g: g1n, f: fn_ } => {
                let y = outs[0]->Yield_0;
                and_then_run_shape::<G1, F, G2, R>(g1n, f, inputs.drop_first(), outs.drop_first(), last);
                match last {
                    AndThen::Before { g: g1_last, f: f_last } => {
                        let ys2 = choose|ys: Seq<G1::Yield>|
                            #![trigger yields::<G1::Yield, G2::Return>(ys)]
                            outs.drop_first() == yields::<G1::Yield, G2::Return>(ys) && generator_runs(
                                g1n,
                                inputs.drop_first(),
                                yields(ys),
                                g1_last,
                            );
                        let ys = seq![y] + ys2;
                        assert forall|i: int| 0 <= i < outs.len() implies outs[i] == yields::<G1::Yield, G2::Return>(ys)[i] by {
                            if i > 0 {
                                assert(outs[i] == outs.drop_first()[i - 1]);
                            }
                        }
                        let gouts = yields::<G1::Yield, G1::Return>(ys);
                        assert(gouts.drop_first() =~= yields::<G1::Yield, G1::Return>(ys2));
                        assert(g1.resume_ensures(inputs[0], g1n, gouts[0]));
                    },
                    AndThen::After { g: g2_last } => {
                        let ins1 = inputs.drop_first();
                        let outs1 = outs.drop_first();
                        let (n, ys1, r, g1_last, g2, w) = choose|n: int, ys1: Seq<G1::Yield>, r: G1::Return, g1_last: G1, g2: G2, w: R|
                            and_then_switched_at(g1n, f, ins1, outs1, g2_last, n, ys1, r, g1_last, g2, w);
                        let ysn = seq![y] + ys1;
                        let kk = n;
                        let gout = yields::<G1::Yield, G1::Return>(ysn).push(GeneratorState::Complete(r));
                        assert(gout.drop_first() =~= yields::<G1::Yield, G1::Return>(ys1).push(GeneratorState::Complete(r)));
                        assert(inputs.take(kk + 1).drop_first() =~= ins1.take(n));
                        assert(g1.resume_ensures(inputs.take(kk + 1)[0], g1n, gout[0]));
                        assert forall|i: int| 0 <= i < kk implies outs.take(kk)[i] == yields::<G1::Yield, G2::Return>(ysn)[i] by {
                            if i > 0 {
                                assert(yields::<G1::Yield, G2::Return>(ysn)[i] == yields::<G1::Yield, G2::Return>(ys1)[i - 1]);
                            }
                        }
                        assert(outs.take(kk) =~= yields::<G1::Yield, G2::Return>(ysn));
                        assert(inputs.skip(kk + 1) =~= ins1.skip(n));
                        assert(outs.skip(kk) =~= outs1.skip(n - 1));
                        assert(and_then_switched_at(g1, f, inputs, outs, last->After_g, kk + 1, ysn, r, g1_last, g2, w));
                    },
                }
            },
            AndThen::After { g: g3 } => {
                let (g1x, r, g2, w) = choose|g1x: G1, r: G1::Return, g2: G2, w: R|
                    #![trigger g1.resume_ensures(inputs[0], g1x, GeneratorState::Complete(r)), call_ensures(f->0, (r,), (g2, w))]
                    {
                        &&& g1.resume_ensures(inputs[0], g1x, GeneratorState::Complete(r))
                        &&& f is Some
                        &&& call_ensures(f->0, (r,), (g2, w))
                        &&& g2.resume_ensures(w, g3, outs[0])
                    };
                and_then_after_runs_back::<G1, F, G2, R>(g3, inputs.drop_first(), outs.drop_first(), last);
                let g2_last = last->After_g;
                let ys1 = Seq::<G1::Yield>::empty();
                let k0: int = 0;
                let n0: int = 1;
                let gout = yields::<G1::Yield, G1::Return>(ys1).push(GeneratorState::Complete(r));
                assert(g1.resume_ensures(inputs.take(n0)[0], g1x, gout[0]));
                assert(generator_runs(g1x, inputs.take(n0).drop_first(), gout.drop_first(), g1x));
                let ins2 = seq![w] + inputs.skip(n0);
                assert(ins2.drop_first() =~= inputs.drop_first());
                assert(outs.skip(k0) =~= outs);
                assert(g2.resume_ensures(ins2[0], g3, outs[0]));
                assert(outs.take(n0 - 1) == yields::<G1::Yield, G2::Return>(ys1));
                assert(and_then_switched_at(g1, f, inputs, outs, last->After_g, n0, ys1, r, g1x, g2, w));
            },
        }
    }
}

} // verus!
