use vstd::prelude::*;

use crate::error::SignalingError;

verus! {

/// The state of a one-shot rendezvous.
pub struct HandoffView<T> {
    /// The delivered value, until it is taken.
    pub slot: Option<T>,
    /// A value has been delivered (it may have been taken since).
    pub delivered: bool,
    /// The owner gave up before any delivery.
    pub aborted: bool,
}

pub open spec fn deliver_ok<T>(v: HandoffView<T>) -> bool {
    !v.delivered && !v.aborted
}

/// A delivery: accepted only as the first, and only before abandonment.
pub open spec fn deliver_spec<T>(v: HandoffView<T>, x: T) -> HandoffView<T> {
    if deliver_ok(v) {
        HandoffView { slot: Some(x), delivered: true, aborted: false }
    } else {
        v
    }
}

/// Abandonment: has effect only while nothing was delivered.
pub open spec fn abandon_spec<T>(v: HandoffView<T>) -> HandoffView<T> {
    if v.delivered {
        v
    } else {
        HandoffView { aborted: true, ..v }
    }
}

/// A `take`: `None` while waiting, the value once, and the abort error
/// when no value is or will be there.
pub open spec fn take_spec<T>(v: HandoffView<T>) -> (Option<Result<T, SignalingError>>, HandoffView<T>) {
    match v.slot {
        Some(x) => (Some(Ok(x)), HandoffView { slot: None, ..v }),
        None => if v.delivered || v.aborted {
            (Some(Err(SignalingError::HandoffAborted)), v)
        } else {
            (None, v)
        },
    }
}

/// A single-use rendezvous between the event that opens the remote data
/// channel and the negotiation that waits for it: at most one value is ever
/// delivered and at most one is taken.
pub struct Handoff<T> {
    slot: Option<T>,
    delivered: bool,
    aborted: bool,
}

impl<T> View for Handoff<T> {
    type V = HandoffView<T>;

    closed spec fn view(&self) -> HandoffView<T> {
        HandoffView { slot: self.slot, delivered: self.delivered, aborted: self.aborted }
    }
}

impl<T> Handoff<T> {
    /// A rendezvous that waits.
    pub fn new() -> (h: Self)
        ensures
            h@ == (HandoffView::<T> { slot: None, delivered: false, aborted: false }),
    {
        Handoff { slot: None, delivered: false, aborted: false }
    }

    /// Offers `x`; returns whether it was accepted.
    pub fn deliver(&mut self, x: T) -> (r: bool)
        ensures
            r == deliver_ok(old(self)@),
            final(self)@ == deliver_spec(old(self)@, x),
    {
        if self.delivered || self.aborted {
            false
        } else {
            self.slot = Some(x);
            self.delivered = true;
            true
        }
    }

    /// The owning negotiation gives up.
    pub fn abandon(&mut self)
        ensures
            final(self)@ == abandon_spec(old(self)@),
    {
        if !self.delivered {
            self.aborted = true;
        }
    }

    /// The event registration must stay: nothing delivered, not abandoned.
    pub fn is_registered(&self) -> (r: bool)
        ensures
            r == deliver_ok(self@),
    {
        !self.delivered && !self.aborted
    }

    /// Takes the delivered value, if there is one.
    pub fn take(&mut self) -> (r: Option<Result<T, SignalingError>>)
        ensures
            (r, final(self)@) == take_spec(old(self)@),
    {
        match self.slot.take() {
            Some(x) => Some(Ok(x)),
            None => if self.delivered || self.aborted {
                Some(Err(SignalingError::HandoffAborted))
            } else {
                None
            },
        }
    }
}

/// At most one value passes: after a first accepted delivery, a second is
/// refused; the first value is taken once, and a second `take` reports the
/// abort error.
pub proof fn lemma_single_use<T>(v: HandoffView<T>, x: T, y: T)
    requires
        deliver_ok(v),
    ensures
        ({
            let v1 = deliver_spec(v, x);
            let v2 = deliver_spec(v1, y);
            let (r1, v3) = take_spec(v2);
            let (r2, _v4) = take_spec(v3);
            &&& !deliver_ok(v1)
            &&& v2 == v1
            &&& r1 == Some(Ok::<T, SignalingError>(x))
            &&& r2 == Some(Err::<T, SignalingError>(SignalingError::HandoffAborted))
        }),
{
}

} // verus!
