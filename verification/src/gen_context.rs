use vstd::prelude::*;

verus! {

/// What the slot shared between a running generator and its body holds:
/// the value the generator was last resumed with, not yet taken by the
/// body, or what the body handed out when it last suspended.
#[derive(Debug, PartialEq, Eq)]
pub enum YieldState<Y, R> {
    Resume(R),
    Yield(Option<Y>),
}

/// How polling a suspension point of the generator's body went.
#[derive(Debug, PartialEq, Eq)]
pub enum Progress<T> {
    Ready(T),
    Pending,
}

/// The state of one poll of a suspension point: `state` is the shared
/// slot, `pending` the item the suspension point still has to hand out.
pub open spec fn poll_yield_spec<Y, R>(state: YieldState<Y, R>, pending: Option<Y>) -> (
    YieldState<Y, R>,
    Progress<R>,
) {
    match pending {
        Some(y) => (YieldState::Yield(Some(y)), Progress::Pending),
        None => (
            YieldState::Yield(None),
            match state {
                YieldState::Resume(r) => Progress::Ready(r),
                YieldState::Yield(_) => Progress::Pending,
            },
        ),
    }
}

/// The slot through which a generator and its body pass resume values and
/// yielded items.
pub struct GeneratorContext<Y, R> {
    state: YieldState<Y, R>,
}

impl<Y, R> GeneratorContext<Y, R> {
    /// What the slot holds.
    pub closed spec fn state(&self) -> YieldState<Y, R> {
        self.state
    }

    /// A slot that holds `value` for the body to take.
    pub fn new_resumed(value: R) -> (ctx: Self)
        ensures
            ctx.state() == YieldState::<Y, R>::Resume(value),
    {
        GeneratorContext { state: YieldState::Resume(value) }
    }

    /// Puts the value the generator is resumed with into the slot.
    pub fn resume(&mut self, value: R)
        ensures
            final(self).state() == YieldState::<Y, R>::Resume(value),
    {
        self.state = YieldState::Resume(value);
    }

    /// Whether the slot holds what the body handed out, rather than a resume
    /// value it has not taken.
    pub fn holds_yield(&self) -> (b: bool)
        ensures
            b == self.state() is Yield,
    {
        match self.state {
            YieldState::Yield(_) => true,
            YieldState::Resume(_) => false,
        }
    }

    /// What the body handed out when it suspended.
    pub fn take_yielded(self) -> (item: Option<Y>)
        requires
            self.state() is Yield,
        ensures
            self.state() == YieldState::<Y, R>::Yield(item),
    {
        match self.state {
            YieldState::Yield(val) => val,
            YieldState::Resume(_) => {
                proof {
                    assert(false);
                }
                None
            },
        }
    }

    /// One poll of a suspension point of the body that still has `pending` to
    /// hand out. An item to hand out goes into the slot and the body
    /// suspends; otherwise the suspension point ends with the resume value
    /// if the slot holds one, and the slot is left empty either way.
    pub fn poll_yield(&mut self, pending: &mut Option<Y>) -> (progress: Progress<R>)
        ensures
            *final(pending) is None,
            (final(self).state(), progress) == poll_yield_spec(old(self).state(), *old(pending)),
    {
        if let Some(item) = pending.take() {
            self.state = YieldState::Yield(Some(item));
            return Progress::Pending;
        }
        let mut previous = YieldState::Yield(None);
        std::mem::swap(&mut previous, &mut self.state);
        match previous {
            YieldState::Resume(r) => Progress::Ready(r),
            YieldState::Yield(_) => Progress::Pending,
        }
    }
}

} // verus!
