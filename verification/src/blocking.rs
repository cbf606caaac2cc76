//! Arbitration of blocking operations.
//!
//! A stream or sink that may need to block first asks its arbiter. The arbiter
//! either lets the operation go ahead or records that it was asked, so that the
//! owner can arrange for a thread on which blocking is acceptable.
use vstd::prelude::*;

verus! {

/// State of a blocking request, as kept by a [`StatefulArbiter`].
#[derive(Clone, Copy, Debug, PartialEq, Eq, Structural)]
pub enum Blocking {
    /// Nothing was asked and nothing is granted.
    Void,
    /// A permission to block was asked for and not granted yet.
    Pending,
    /// The next request to block is granted, and only that one.
    Once,
    /// Every request to block is granted.
    Always,
}

/// The answer to a request to block made in the given state.
pub open spec fn grants(state: Blocking) -> bool {
    state is Once || state is Always
}

/// The state that a request to block leaves behind.
pub open spec fn after_request(state: Blocking) -> Blocking {
    match state {
        Blocking::Void => Blocking::Pending,
        Blocking::Pending => Blocking::Pending,
        Blocking::Once => Blocking::Void,
        Blocking::Always => Blocking::Always,
    }
}

/// Decides whether a blocking operation may run now.
pub trait BlockingArbiter: Sized {
    /// The state that the arbiter reports.
    spec fn blocking(&self) -> Blocking;

    /// The state that a request to block leaves in the arbiter.
    spec fn requested(&self) -> Blocking;

    /// Whether a request to block is granted.
    spec fn permits(&self) -> bool;

    /// Ask to block. Returns true if the operation may go ahead.
    fn can_block(&mut self) -> (granted: bool)
        ensures
            granted == old(self).permits(),
            final(self).blocking() == old(self).requested(),
    ;

    /// The current state.
    fn state(&self) -> (state: Blocking)
        ensures
            state == self.blocking(),
    ;
}

/// An arbiter that always lets the operation go ahead.
#[derive(Clone, Copy, Debug)]
pub struct LenientArbiter;

impl Default for LenientArbiter {
    fn default() -> (r: Self)
        ensures
            r.blocking() == Blocking::Always,
    {
        LenientArbiter
    }
}

impl BlockingArbiter for LenientArbiter {
    open spec fn blocking(&self) -> Blocking {
        Blocking::Always
    }

    open spec fn requested(&self) -> Blocking {
        Blocking::Always
    }

    open spec fn permits(&self) -> bool {
        true
    }

    fn can_block(&mut self) -> bool {
        true
    }

    fn state(&self) -> Blocking {
        Blocking::Always
    }
}

/// An arbiter that records requests and grants what it was told to grant.
#[derive(Clone, Copy, Debug)]
pub struct StatefulArbiter {
    pub state: Blocking,
}

impl Default for StatefulArbiter {
    fn default() -> (r: Self)
        ensures
            r.state == Blocking::Void,
    {
        StatefulArbiter { state: Blocking::Void }
    }
}

impl StatefulArbiter {
    /// Replace the state, as when a permit was obtained.
    pub fn set(&mut self, state: Blocking)
        ensures
            final(self).state == state,
    {
        self.state = state;
    }
}

impl BlockingArbiter for StatefulArbiter {
    open spec fn blocking(&self) -> Blocking {
        self.state
    }

    open spec fn requested(&self) -> Blocking {
        after_request(self.state)
    }

    open spec fn permits(&self) -> bool {
        grants(self.state)
    }

    fn can_block(&mut self) -> bool {
        match self.state {
            Blocking::Void => {
                self.state = Blocking::Pending;
                false
            },
            Blocking::Pending => false,
            Blocking::Once => {
                self.state = Blocking::Void;
                true
            },
            Blocking::Always => true,
        }
    }

    fn state(&self) -> Blocking {
        self.state
    }
}

/// A single grant is spent by the first request: the request after it is
/// refused and recorded, and stays refused until the state is set anew.
pub proof fn law_once_is_spent(state: Blocking)
    requires
        state is Once,
    ensures
        grants(state),
        !grants(after_request(state)),
        after_request(after_request(state)) is Pending,
        !grants(after_request(after_request(state))),
{
}

/// A refused request leaves the arbiter pending, and asking again changes
/// nothing.
pub proof fn law_refusal_is_recorded(state: Blocking)
    requires
        !grants(state),
    ensures
        after_request(state) is Pending,
        !grants(after_request(state)),
        after_request(after_request(state)) == after_request(state),
{
}

/// What a request to block is answered, and the state after it: it is refused and
/// recorded unless it was granted before, and a grant for one request is spent by
/// it.
pub proof fn law_requests(a: &mut StatefulArbiter, granted: bool, state: Blocking)
    requires
        call_ensures(<StatefulArbiter as BlockingArbiter>::can_block, (a,), granted),
        call_ensures(<StatefulArbiter as BlockingArbiter>::state, (&*final(a),), state),
    ensures
        state == final(a).state,
        old(a).state is Void ==> !granted && state is Pending,
        old(a).state is Pending ==> !granted && state is Pending,
        old(a).state is Once ==> granted && state is Void,
        old(a).state is Always ==> granted && state is Always,
{
}

/// Two requests after one grant: the first is granted, and the second is refused.
pub proof fn law_one_grant(
    a: &mut StatefulArbiter,
    b: &mut StatefulArbiter,
    c: &mut StatefulArbiter,
    first: bool,
    second: bool,
)
    requires
        call_ensures(StatefulArbiter::set, (a, Blocking::Once), ()),
        *old(b) == *final(a),
        call_ensures(<StatefulArbiter as BlockingArbiter>::can_block, (b,), first),
        *old(c) == *final(b),
        call_ensures(<StatefulArbiter as BlockingArbiter>::can_block, (c,), second),
    ensures
        first,
        !second,
        final(c).state is Pending,
{
}

/// A lenient arbiter grants every request, and says so. A stateful one starts with
/// nothing asked and nothing granted, and is in the state that it is set to.
pub proof fn law_arbiters(
    a: &mut LenientArbiter,
    granted: bool,
    state: Blocking,
    fresh: StatefulArbiter,
    b: &mut StatefulArbiter,
    new: Blocking,
)
    requires
        call_ensures(<LenientArbiter as BlockingArbiter>::can_block, (a,), granted),
        call_ensures(<LenientArbiter as BlockingArbiter>::state, (&*final(a),), state),
        call_ensures(<StatefulArbiter as Default>::default, (), fresh),
        call_ensures(StatefulArbiter::set, (b, new), ()),
    ensures
        granted,
        state is Always,
        fresh.state is Void,
        final(b).state == new,
{
}

} // verus!
