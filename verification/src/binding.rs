//! The binding of a sponge to a circuit: a circuit that is bound to a sponge
//! implementation offers the protocol itself, so that its callers need not name
//! the sponge's type.

use crate::action::{SpongeAction, MAX_COUNT};
use crate::error::SpongeError;
use crate::protocol::{absorb_spec, squeeze_output, squeeze_spec, TSponge};
use crate::state::{can_finalize, finalize_spec, session, Circuit, SpongeModel, SpongeSpec};
use vstd::prelude::*;

verus! {

/// Names the sponge that goes with the circuit `C`.
pub trait PoseidonImpl<C: Circuit> {
    type Sponge: TSponge<C>;
}

/// The protocol as operations of the circuit. Each is the operation of the same
/// name of the bound sponge, with the same contract.
pub trait Poseidon<ImplInstance: PoseidonImpl<Self>>: Circuit {
    /// A fresh sponge for this circuit.
    fn new(&mut self) -> (s: ImplInstance::Sponge)
        ensures
            s.model().wf(),
            s.model().absorb_pos == 0,
            s.model().squeeze_pos == 0,
            s.model().log == Seq::<SpongeAction>::empty(),
    {
        <ImplInstance::Sponge as TSponge<Self>>::new(self)
    }

    /// Absorbs a batch of elements into `sponge`.
    fn absorb(&mut self, sponge: &mut ImplInstance::Sponge, inputs: Vec<Self::Signal>) -> (r:
        Result<(), SpongeError>)
        requires
            old(sponge).model().wf(),
        ensures
            final(sponge).model().wf(),
            final(sponge).model().rate == old(sponge).model().rate,
            final(sponge).model().separator == old(sponge).model().separator,
            inputs@.len() == 0 ==> r is Ok && session(*final(sponge), *final(self)) == session(
                *old(sponge),
                *old(self),
            ),
            inputs@.len() <= MAX_COUNT ==> r is Ok && session(*final(sponge), *final(self))
                == absorb_spec::<Self, ImplInstance::Sponge>(
                session(*old(sponge), *old(self)),
                inputs@,
            ),
            0 < inputs@.len() <= MAX_COUNT ==> final(sponge).model().squeeze_pos
                == old(sponge).model().rate,
            0 < inputs@.len() <= MAX_COUNT ==> final(sponge).model().log
                == old(sponge).model().log.push(SpongeAction::Absorb(inputs@.len() as u32)),
            inputs@.len() > MAX_COUNT ==> r == Err::<(), SpongeError>(SpongeError::BatchTooLong)
                && session(*final(sponge), *final(self)) == session(*old(sponge), *old(self)),
    {
        TSponge::absorb(sponge, self, inputs)
    }

    /// Squeezes a batch of `length` elements out of `sponge`.
    fn squeeze(&mut self, sponge: &mut ImplInstance::Sponge, length: usize) -> (r: Result<
        Vec<Self::Signal>,
        SpongeError,
    >)
        requires
            old(sponge).model().wf(),
        ensures
            final(sponge).model().wf(),
            final(sponge).model().rate == old(sponge).model().rate,
            final(sponge).model().separator == old(sponge).model().separator,
            length == 0 ==> r is Ok && r->Ok_0@ == Seq::<Self::Signal>::empty() && session(
                *final(sponge),
                *final(self),
            ) == session(*old(sponge), *old(self)),
            length <= MAX_COUNT ==> r is Ok && r->Ok_0@ == squeeze_output::<
                Self,
                ImplInstance::Sponge,
            >(session(*old(sponge), *old(self)), length as nat) && session(
                *final(sponge),
                *final(self),
            ) == squeeze_spec::<Self, ImplInstance::Sponge>(
                session(*old(sponge), *old(self)),
                length as nat,
            ),
            0 < length <= MAX_COUNT ==> r->Ok_0@.len() == length,
            0 < length <= MAX_COUNT ==> final(sponge).model().log
                == old(sponge).model().log.push(SpongeAction::Squeeze(length as u32)),
            length > MAX_COUNT ==> r == Err::<Vec<Self::Signal>, SpongeError>(
                SpongeError::BatchTooLong,
            ) && session(*final(sponge), *final(self)) == session(*old(sponge), *old(self)),
    {
        TSponge::squeeze(sponge, self, length)
    }

    /// Derives the tag of `sponge` and writes it into its capacity.
    fn finalize(&mut self, sponge: &mut ImplInstance::Sponge) -> (r: Result<(), SpongeError>)
        requires
            old(sponge).model().wf(),
        ensures
            final(sponge).model().wf(),
            final(sponge).model() == (SpongeModel {
                capacity: final(sponge).model().capacity,
                ..old(sponge).model()
            }),
            can_finalize(session(*old(sponge), *old(self))) ==> r is Ok && session(
                *final(sponge),
                *final(self),
            ) == finalize_spec::<Self, ImplInstance::Sponge>(session(*old(sponge), *old(self))),
            !can_finalize(session(*old(sponge), *old(self))) ==> r == Err::<(), SpongeError>(
                SpongeError::CountOverflow,
            ) && session(*final(sponge), *final(self)) == session(*old(sponge), *old(self)),
    {
        TSponge::finalize(sponge, self)
    }
}

} // verus!
