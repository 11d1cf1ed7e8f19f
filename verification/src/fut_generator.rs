use vstd::prelude::*;

use crate::gen_context::{poll_yield_spec, GeneratorContext, Progress, YieldState};
use crate::GeneratorState;

verus! {

/// What a resume gives back once polling the body went as `progress` and
/// the slot holds `state`: `None` stands for a body that suspended
/// without handing out an item.
pub open spec fn settle_spec<Y, R, O>(progress: Progress<O>, state: YieldState<Y, R>) -> Option<
    GeneratorState<Y, O>,
> {
    match progress {
        Progress::Ready(o) => Some(GeneratorState::Complete(o)),
        Progress::Pending => match state {
            YieldState::Yield(Some(y)) => Some(GeneratorState::Yield(y)),
            _ => None,
        },
    }
}

/// What one resume of a generator driven by a body gives back, from how
/// polling the body went and what the slot holds afterwards: the body's
/// result once it has finished, else the item it handed out when it
/// suspended.
pub fn settle<Y, R, O>(progress: Progress<O>, ctx: GeneratorContext<Y, R>) -> (out: Option<GeneratorState<Y, O>>)
    requires
        progress is Pending ==> ctx.state() is Yield,
    ensures
        out == settle_spec(progress, ctx.state()),
{
    match progress {
        Progress::Ready(o) => Some(GeneratorState::Complete(o)),
        Progress::Pending => match ctx.take_yielded() {
            Some(y) => Some(GeneratorState::Yield(y)),
            None => None,
        },
    }
}

} // verus!

verus! {

/// A suspension point that hands out `y` suspends the body, and the resume
/// that polled the body gives back `Yield(y)`; when the generator is next
/// resumed with `v`, polling the same suspension point again ends it with `v`.
pub proof fn yield_point_round_trip<Y, R, O>(state: YieldState<Y, R>, y: Y, v: R)
    ensures
        poll_yield_spec(state, Some(y)).1 == Progress::<R>::Pending,
        settle_spec(Progress::<O>::Pending, poll_yield_spec(state, Some(y)).0) == Some(
            GeneratorState::<Y, O>::Yield(y),
        ),
        poll_yield_spec(YieldState::<Y, R>::Resume(v), None) == (
            YieldState::<Y, R>::Yield(None),
            Progress::Ready(v),
        ),
{
}

/// A body that finishes with `o` makes the resume give back `Complete(o)`,
/// whatever the slot holds.
pub proof fn finished_body_completes<Y, R, O>(state: YieldState<Y, R>, o: O)
    ensures
        settle_spec(Progress::Ready(o), state) == Some(GeneratorState::<Y, O>::Complete(o)),
{
}

} // verus!

verus! {

/// Whether a generator's body has been started: before that, the function
/// that starts it (until it has been handed out); after, the running body.
pub enum Gen<Init, G> {
    Init(Option<Init>),
    Gen(G),
}

/// The function that starts the body, if `stage` still holds it, and the
/// stage left after handing it out.
pub open spec fn take_init_spec<Init, G>(stage: Gen<Init, G>) -> (Gen<Init, G>, Option<Init>) {
    match stage {
        Gen::Init(Some(init)) => (Gen::Init(None), Some(init)),
        _ => (stage, None),
    }
}

impl<Init, G> Gen<Init, G> {
    /// A body not yet started, to be started by `init`.
    pub fn new(init: Init) -> (stage: Self)
        ensures
            stage == Gen::<Init, G>::Init(Some(init)),
    {
        Gen::Init(Some(init))
    }

    /// Hands out the function that starts the body, the first time it is asked for.
    pub fn take_init(&mut self) -> (init: Option<Init>)
        ensures
            (*final(self), init) == take_init_spec(*old(self)),
            *old(self) matches Gen::Init(Some(f)) ==> init == Some(f) && *final(self) == Gen::<Init, G>::Init(
                None,
            ),
            !(*old(self) matches Gen::Init(Some(_))) ==> init is None && *final(self) == *old(self),
    {
        match self {
            Gen::Init(init) => init.take(),
            Gen::Gen(_) => None,
        }
    }

    /// The body has been started and runs as `body`.
    pub fn start(&mut self, body: G)
        ensures
            *final(self) == Gen::<Init, G>::Gen(body),
    {
        *self = Gen::Gen(body);
    }
}

/// The function that starts a body is handed out at most once: once asked
/// for, it is never handed out again.
pub proof fn body_starts_once<Init, G>(stage: Gen<Init, G>)
    ensures
        take_init_spec(take_init_spec(stage).0).1 is None,
{
}

/// A body not yet started hands out the very function it was made with the
/// first time it is asked, and is left holding nothing; asked again, it
/// hands out nothing and stays as it is.
pub proof fn first_take_hands_out_init<Init, G>(init: Init)
    ensures
        take_init_spec(Gen::<Init, G>::Init(Some(init))) == (Gen::<Init, G>::Init(None), Some(init)),
        take_init_spec(Gen::<Init, G>::Init(None)) == (Gen::<Init, G>::Init(None), None::<Init>),
{
}

/// Asking a stage for its starting function either hands out what the stage
/// held, leaving it empty, or hands out nothing and changes nothing; it never
/// makes up a function, and it never touches a started body.
pub proof fn take_init_hands_out_what_it_holds<Init, G>(stage: Gen<Init, G>)
    ensures
        match take_init_spec(stage) {
            (rest, Some(f)) => stage == Gen::<Init, G>::Init(Some(f)) && rest == Gen::<Init, G>::Init(None),
            (rest, None) => rest == stage && !(stage matches Gen::Init(Some(_))),
        },
{
}

} // verus!
