//! The one piece of state the reconciliation loop owns: whether it holds a
//! sleep inhibitor, and the handle to it while it does.
//!
//! Each tick the loop reads the audio signal, asks [`HeldState::plan`] what to
//! do, performs that call on the inhibitor, and hands the outcome back through
//! [`HeldState::record_acquire`] or [`HeldState::take_for_release`]. On
//! cancellation it calls [`HeldState::take_for_shutdown`] and releases what
//! comes back.
use vstd::prelude::*;

verus! {

/// The call a tick makes on the inhibitor.
#[derive(Clone, Copy, Debug, PartialEq, Eq, Structural)]
pub enum Action {
    /// No call: held state already matches the reading, or the reading failed.
    Stay,
    /// Acquire an inhibitor.
    Acquire,
    /// Release the held inhibitor.
    Release,
}

/// Held state of the loop. `H` is the handle of a live inhibitor.
#[derive(Debug)]
pub enum HeldState<H> {
    Uninhibited,
    Inhibiting(H),
}

/// The call a tick makes, given whether an inhibitor is held and what the
/// probe read (`None` when the probe failed).
pub open spec fn plan_for(held: bool, reading: Option<bool>) -> Action {
    match reading {
        Some(true) => if held {
            Action::Stay
        } else {
            Action::Acquire
        },
        Some(false) => if held {
            Action::Release
        } else {
            Action::Stay
        },
        None => Action::Stay,
    }
}

/// Whether an inhibitor is held after a tick that made `action`;
/// `acquired` tells whether an acquire call succeeded.
pub open spec fn held_after(held: bool, action: Action, acquired: bool) -> bool {
    match action {
        Action::Stay => held,
        Action::Acquire => acquired,
        Action::Release => false,
    }
}

impl<H> HeldState<H> {
    pub open spec fn is_inhibiting(&self) -> bool {
        self is Inhibiting
    }

    /// The state at start: nothing held.
    pub fn new() -> (r: Self)
        ensures
            r is Uninhibited,
    {
        HeldState::Uninhibited
    }

    pub fn is_held(&self) -> (r: bool)
        ensures
            r == self.is_inhibiting(),
    {
        match self {
            HeldState::Uninhibited => false,
            HeldState::Inhibiting(_) => true,
        }
    }

    /// The call to make on a tick whose probe read `reading`
    /// (`None`: the probe failed).
    pub fn plan(&self, reading: Option<bool>) -> (a: Action)
        ensures
            a == plan_for(self.is_inhibiting(), reading),
            reading is None ==> a == Action::Stay,
            a == Action::Acquire <==> (reading == Some(true) && !self.is_inhibiting()),
            a == Action::Release <==> (reading == Some(false) && self.is_inhibiting()),
    {
        match reading {
            Some(true) => if self.is_held() {
                Action::Stay
            } else {
                Action::Acquire
            },
            Some(false) => if self.is_held() {
                Action::Release
            } else {
                Action::Stay
            },
            None => Action::Stay,
        }
    }

    /// Takes the outcome of an acquire call: on success the handle is held,
    /// on failure nothing is, and the error is handed back.
    pub fn record_acquire<E>(&mut self, outcome: Result<H, E>) -> (r: Result<(), E>)
        requires
            *old(self) is Uninhibited,
        ensures
            final(self).is_inhibiting() == held_after(false, Action::Acquire, outcome is Ok),
            match outcome {
                Ok(h) => *final(self) == HeldState::Inhibiting(h) && r is Ok,
                Err(e) => *final(self) is Uninhibited && r == Err::<(), E>(e),
            },
    {
        match outcome {
            Ok(h) => {
                *self = HeldState::Inhibiting(h);
                Ok(())
            },
            Err(e) => Err(e),
        }
    }

    /// Hands out the held handle for release and forgets it: afterwards the
    /// state is `Uninhibited` whatever the release call does.
    pub fn take_for_release(&mut self) -> (r: Option<H>)
        ensures
            *final(self) is Uninhibited,
            final(self).is_inhibiting() == held_after(
                old(self).is_inhibiting(),
                Action::Release,
                false,
            ),
            match *old(self) {
                HeldState::Inhibiting(h) => r == Some(h),
                HeldState::Uninhibited => r is None,
            },
    {
        let mut prev = HeldState::Uninhibited;
        std::mem::swap(self, &mut prev);
        match prev {
            HeldState::Inhibiting(h) => Some(h),
            HeldState::Uninhibited => None,
        }
    }

    /// The shutdown path: the handle to release, if one is held, exactly
    /// once; the state ends `Uninhibited`.
    pub fn take_for_shutdown(&mut self) -> (r: Option<H>)
        ensures
            *final(self) is Uninhibited,
            r is Some <==> old(self).is_inhibiting(),
            match *old(self) {
                HeldState::Inhibiting(h) => r == Some(h),
                HeldState::Uninhibited => r is None,
            },
    {
        self.take_for_release()
    }
}

} // verus!
