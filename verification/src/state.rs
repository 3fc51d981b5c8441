//! The state of a sponge and the single-element steps on it.
//!
//! A sponge keeps `rate` slots that absorbing writes and squeezing reads, a
//! capacity that only the permutation reaches, a cursor for each direction, and
//! the history of the batch calls made on it. The values in the slots belong to
//! a circuit; the permutation, the hashing of the tag and the writing of the
//! capacity come from whoever implements [`TSpongePrivate`].

use crate::action::SpongeAction;
use crate::error::SpongeError;
use crate::log::{all_fit, compress, lemma_separator_distinguishes, tag_input, tag_preimage};
use vstd::prelude::*;

verus! {

/// The context in which a sponge computes: it fixes the type of the values that
/// go into and come out of the sponge.
pub trait Circuit: Sized {
    type Signal;
}

/// What a sponge is, apart from the circuit it computes in.
pub struct SpongeModel<V> {
    /// The number of slots, fixed when the sponge is made.
    pub rate: nat,
    /// Where the next absorbed element goes.
    pub absorb_pos: nat,
    /// Where the next squeezed element comes from.
    pub squeeze_pos: nat,
    /// The batch calls so far, oldest first.
    pub log: Seq<SpongeAction>,
    /// The words of the domain separator.
    pub separator: Seq<u32>,
    /// The slots.
    pub slots: Seq<V>,
    /// The part of the permutation's state that is not a slot.
    pub capacity: Seq<V>,
}

impl<V> SpongeModel<V> {
    /// There is at least one slot, there are `rate` of them, and both cursors are
    /// at a slot or just behind the last one.
    pub open spec fn wf(self) -> bool {
        &&& self.rate > 0
        &&& self.slots.len() == self.rate
        &&& self.absorb_pos <= self.rate
        &&& self.squeeze_pos <= self.rate
    }
}

/// A sponge together with the circuit it computes in: what a step starts from
/// and what it leaves.
pub struct Session<C: Circuit> {
    pub sponge: SpongeModel<C::Signal>,
    pub circuit: C,
}

/// What a sponge is in the contracts: its state as a value, and the three
/// things that it takes from outside, each as a function of what it is given and
/// of nothing else. These are the permutation, the hash that makes a tag, and the
/// write of a tag into the capacity.
pub trait SpongeSpec<C: Circuit>: Sized {
    type Field;

    /// The state of the sponge.
    spec fn model(&self) -> SpongeModel<C::Signal>;

    /// The tag that the hash makes of a sequence of words.
    spec fn tag(items: Seq<u32>) -> Self::Field;

    /// What the permutation makes of slots, capacity and circuit, in this order.
    spec fn permutation(slots: Seq<C::Signal>, capacity: Seq<C::Signal>, circuit: C) -> (
        Seq<C::Signal>,
        Seq<C::Signal>,
        C,
    );

    /// What the write of a tag makes of capacity and circuit, in this order.
    spec fn capacity_injection(capacity: Seq<C::Signal>, circuit: C, tag: Self::Field) -> (
        Seq<C::Signal>,
        C,
    );

    /// The permutation leaves as many slots as it was given.
    proof fn lemma_permutation_keeps_slots(
        slots: Seq<C::Signal>,
        capacity: Seq<C::Signal>,
        circuit: C,
    )
        ensures
            Self::permutation(slots, capacity, circuit).0.len() == slots.len(),
    ;
}

/// The session of a sponge and a circuit.
pub open spec fn session<C: Circuit, S: SpongeSpec<C>>(sponge: S, circuit: C) -> Session<C> {
    Session { sponge: sponge.model(), circuit }
}

/// The session after the permutation has run once: slots, capacity and circuit
/// are what the permutation made of them, the rest is as before.
pub open spec fn permute_spec<C: Circuit, S: SpongeSpec<C>>(s: Session<C>) -> Session<C> {
    let after = S::permutation(s.sponge.slots, s.sponge.capacity, s.circuit);
    Session {
        sponge: SpongeModel { slots: after.0, capacity: after.1, ..s.sponge },
        circuit: after.2,
    }
}

/// The session after one element has been absorbed. If the absorb cursor is
/// behind the last slot, the permutation runs first and the cursor goes back to
/// the first slot. The element is written where the cursor is, the cursor moves
/// on by one, and the squeeze cursor is put behind the last slot.
pub open spec fn absorb_one_spec<C: Circuit, S: SpongeSpec<C>>(
    s: Session<C>,
    input: C::Signal,
) -> Session<C> {
    let t = if s.sponge.absorb_pos == s.sponge.rate {
        let p = permute_spec::<C, S>(s);
        Session { sponge: SpongeModel { absorb_pos: 0, ..p.sponge }, circuit: p.circuit }
    } else {
        s
    };
    Session {
        sponge: SpongeModel {
            slots: t.sponge.slots.update(t.sponge.absorb_pos as int, input),
            absorb_pos: t.sponge.absorb_pos + 1,
            squeeze_pos: t.sponge.rate,
            ..t.sponge
        },
        circuit: t.circuit,
    }
}

/// The session before the read of a squeeze: if the squeeze cursor is behind the
/// last slot, the permutation has run and both cursors are at the first slot.
pub open spec fn squeeze_ready_spec<C: Circuit, S: SpongeSpec<C>>(
    s: Session<C>,
) -> Session<C> {
    if s.sponge.squeeze_pos == s.sponge.rate {
        let p = permute_spec::<C, S>(s);
        Session {
            sponge: SpongeModel { absorb_pos: 0, squeeze_pos: 0, ..p.sponge },
            circuit: p.circuit,
        }
    } else {
        s
    }
}

/// The element that one squeeze gives: the slot at the squeeze cursor, after the
/// permutation if the cursor was behind the last slot.
pub open spec fn squeeze_one_output<C: Circuit, S: SpongeSpec<C>>(s: Session<C>) -> C::Signal {
    let t = squeeze_ready_spec::<C, S>(s);
    t.sponge.slots[t.sponge.squeeze_pos as int]
}

/// The session after one element has been squeezed: as before the read, with
/// the squeeze cursor moved on by one.
pub open spec fn squeeze_one_spec<C: Circuit, S: SpongeSpec<C>>(s: Session<C>) -> Session<C> {
    let t = squeeze_ready_spec::<C, S>(s);
    Session {
        sponge: SpongeModel { squeeze_pos: t.sponge.squeeze_pos + 1, ..t.sponge },
        circuit: t.circuit,
    }
}

/// Whether the history of the session can be compressed into entries, so that a
/// tag can be derived from it.
pub open spec fn can_finalize<C: Circuit>(s: Session<C>) -> bool {
    all_fit(compress(s.sponge.log))
}

/// The tag of the session: the hash of its compressed history and its domain
/// separator.
pub open spec fn tag_spec<C: Circuit, S: SpongeSpec<C>>(s: Session<C>) -> S::Field {
    S::tag(tag_input(s.sponge.log, s.sponge.separator))
}

/// The session after its tag has been written into the capacity: capacity and
/// circuit are what the write made of them, the rest is as before.
pub open spec fn finalize_spec<C: Circuit, S: SpongeSpec<C>>(s: Session<C>) -> Session<C> {
    let after = S::capacity_injection(s.sponge.capacity, s.circuit, tag_spec::<C, S>(s));
    Session { sponge: SpongeModel { capacity: after.0, ..s.sponge }, circuit: after.1 }
}

/// The permutation leaves a valid sponge valid.
pub proof fn lemma_permute_keeps_wf<C: Circuit, S: SpongeSpec<C>>(s: Session<C>)
    requires
        s.sponge.wf(),
    ensures
        permute_spec::<C, S>(s).sponge.wf(),
{
    S::lemma_permutation_keeps_slots(s.sponge.slots, s.sponge.capacity, s.circuit);
}

/// Absorbing one element leaves a valid sponge valid, with the squeeze cursor
/// behind the last slot: the next squeeze starts with the permutation.
pub proof fn lemma_absorb_one_keeps_wf<C: Circuit, S: SpongeSpec<C>>(
    s: Session<C>,
    input: C::Signal,
)
    requires
        s.sponge.wf(),
    ensures
        absorb_one_spec::<C, S>(s, input).sponge.wf(),
        absorb_one_spec::<C, S>(s, input).sponge.squeeze_pos == s.sponge.rate,
        absorb_one_spec::<C, S>(s, input).sponge.rate == s.sponge.rate,
        absorb_one_spec::<C, S>(s, input).sponge.log == s.sponge.log,
        absorb_one_spec::<C, S>(s, input).sponge.separator == s.sponge.separator,
{
    lemma_permute_keeps_wf::<C, S>(s);
}

/// Squeezing one element leaves a valid sponge valid.
pub proof fn lemma_squeeze_one_keeps_wf<C: Circuit, S: SpongeSpec<C>>(s: Session<C>)
    requires
        s.sponge.wf(),
    ensures
        squeeze_one_spec::<C, S>(s).sponge.wf(),
        squeeze_one_spec::<C, S>(s).sponge.rate == s.sponge.rate,
        squeeze_one_spec::<C, S>(s).sponge.log == s.sponge.log,
        squeeze_one_spec::<C, S>(s).sponge.separator == s.sponge.separator,
{
    lemma_permute_keeps_wf::<C, S>(s);
}

/// Domain separation: two sponges with the same compressed history and different
/// domain separators have different tags, provided that the hash gives different
/// tags to different sequences of words.
pub proof fn lemma_domain_separation<C: Circuit, S: SpongeSpec<C>>(a: Session<C>, b: Session<C>)
    requires
        compress(a.sponge.log) == compress(b.sponge.log),
        a.sponge.separator != b.sponge.separator,
        forall|x: Seq<u32>, y: Seq<u32>| #[trigger] S::tag(x) == #[trigger] S::tag(y) ==> x == y,
    ensures
        tag_spec::<C, S>(a) != tag_spec::<C, S>(b),
{
    lemma_separator_distinguishes(a.sponge.log, a.sponge.separator, b.sponge.separator);
}

/// The primitive operations on a sponge's state, and the single-element steps
/// and the derivation of the tag that are built from them.
///
/// An implementor supplies the primitives, from `rate` to `permute`, and owes
/// each of them its contract. `absorb_one`, `squeeze_one` and `finalize_tag` are
/// built from the primitives here, and proved from those contracts alone.
pub trait TSpongePrivate<C: Circuit>: SpongeSpec<C> {
    type DomainSeparator;

    /// The words that a domain separator is made of.
    spec fn separator_words(sep: Self::DomainSeparator) -> Seq<u32>;

    /// The number of slots.
    fn rate(&self) -> (r: usize)
        ensures
            r == self.model().rate,
    ;

    /// Where the next absorbed element goes.
    fn absorb_pos(&self) -> (r: usize)
        ensures
            r == self.model().absorb_pos,
    ;

    /// Moves the absorb cursor, and changes nothing else.
    fn set_absorb_pos(&mut self, new_pos: usize)
        requires
            new_pos <= old(self).model().rate,
        ensures
            final(self).model() == (SpongeModel {
                absorb_pos: new_pos as nat,
                ..old(self).model()
            }),
    ;

    /// Where the next squeezed element comes from.
    fn squeeze_pos(&self) -> (r: usize)
        ensures
            r == self.model().squeeze_pos,
    ;

    /// Moves the squeeze cursor, and changes nothing else.
    fn set_squeeze_pos(&mut self, new_pos: usize)
        requires
            new_pos <= old(self).model().rate,
        ensures
            final(self).model() == (SpongeModel {
                squeeze_pos: new_pos as nat,
                ..old(self).model()
            }),
    ;

    /// A fresh sponge with `rate` slots and the given domain separator: both
    /// cursors at the first slot, no history. What the slots and the capacity
    /// hold, and what becomes of the circuit, is the implementor's choice.
    fn init(c: &mut C, sep: Self::DomainSeparator, rate: usize) -> (s: Self)
        requires
            rate > 0,
        ensures
            s.model().wf(),
            s.model().rate == rate,
            s.model().absorb_pos == 0,
            s.model().squeeze_pos == 0,
            s.model().log == Seq::<SpongeAction>::empty(),
            s.model().separator == Self::separator_words(sep),
    ;

    /// Appends one entry to the history.
    fn add_log(&mut self, action: SpongeAction)
        ensures
            final(self).model() == (SpongeModel {
                log: old(self).model().log.push(action),
                ..old(self).model()
            }),
    ;

    /// The whole history, oldest entry first.
    fn get_log(&self) -> (log: Vec<SpongeAction>)
        ensures
            log@ == self.model().log,
    ;

    /// Hashes a sequence of words into a tag.
    fn tag_hasher(&self, items: Vec<u32>) -> (t: Self::Field)
        ensures
            t == Self::tag(items@),
    ;

    /// The words of the sponge's domain separator.
    fn serialized_domain_separator(&self) -> (words: Vec<u32>)
        ensures
            words@ == self.model().separator,
    ;

    /// Writes a tag into the capacity. The slots, the cursors and the history
    /// stay as they are.
    fn initialize_capacity(&mut self, c: &mut C, capacity: Self::Field)
        requires
            old(self).model().wf(),
        ensures
            final(self).model() == (SpongeModel {
                capacity: Self::capacity_injection(
                    old(self).model().capacity,
                    *old(c),
                    capacity,
                ).0,
                ..old(self).model()
            }),
            *final(c) == Self::capacity_injection(old(self).model().capacity, *old(c), capacity).1,
    ;

    /// The value in the slot at `offset`.
    fn read_rate_element(&self, offset: usize) -> (value: C::Signal)
        requires
            self.model().wf(),
            offset < self.model().rate,
        ensures
            value == self.model().slots[offset as int],
    ;

    /// Writes `value` into the slot at `offset`.
    fn add_rate_element(&mut self, offset: usize, value: C::Signal)
        requires
            old(self).model().wf(),
            offset < old(self).model().rate,
        ensures
            final(self).model() == (SpongeModel {
                slots: old(self).model().slots.update(offset as int, value),
                ..old(self).model()
            }),
    ;

    /// Runs the permutation over slots and capacity, in place. The cursors and
    /// the history stay as they are.
    fn permute(&mut self, c: &mut C)
        requires
            old(self).model().wf(),
        ensures
            session(*final(self), *final(c)) == permute_spec::<C, Self>(session(*old(self), *old(c))),
    ;

    /// Absorbs one element. The squeeze cursor is behind the last slot
    /// afterwards, so that the next squeeze starts with the permutation.
    fn absorb_one(&mut self, c: &mut C, input: C::Signal)
        requires
            old(self).model().wf(),
        ensures
            final(self).model().wf(),
            final(self).model().squeeze_pos == final(self).model().rate,
            session(*final(self), *final(c)) == absorb_one_spec::<C, Self>(
                session(*old(self), *old(c)),
                input,
            ),
    {
        proof {
            lemma_permute_keeps_wf::<C, Self>(session(*self, *c));
        }
        if self.absorb_pos() == self.rate() {
            self.permute(c);
            self.set_absorb_pos(0);
        }
        let pos = self.absorb_pos();
        self.add_rate_element(pos, input);
        self.set_absorb_pos(pos + 1);
        let rate = self.rate();
        self.set_squeeze_pos(rate)
    }

    /// Squeezes one element.
    fn squeeze_one(&mut self, c: &mut C) -> (output: C::Signal)
        requires
            old(self).model().wf(),
        ensures
            final(self).model().wf(),
            output == squeeze_one_output::<C, Self>(session(*old(self), *old(c))),
            session(*final(self), *final(c)) == squeeze_one_spec::<C, Self>(
                session(*old(self), *old(c)),
            ),
    {
        proof {
            lemma_permute_keeps_wf::<C, Self>(session(*self, *c));
        }
        if self.squeeze_pos() == self.rate() {
            self.permute(c);
            self.set_absorb_pos(0);
            self.set_squeeze_pos(0);
        }
        let pos = self.squeeze_pos();
        let ret = self.read_rate_element(pos);
        self.set_squeeze_pos(pos + 1);
        ret
    }

    /// Derives the tag from the history and the domain separator and writes it
    /// into the capacity.
    ///
    /// The call is refused, and nothing changes, exactly when the history cannot
    /// be compressed: when consecutive batches of one direction add up to more
    /// than an entry can count.
    ///
    /// The sponge keeps no record of having been finalized. A second call derives
    /// the tag again, from the history as it then is; keeping to one call, made
    /// when the history is complete, is up to the caller.
    fn finalize_tag(&mut self, c: &mut C) -> (r: Result<(), SpongeError>)
        requires
            old(self).model().wf(),
        ensures
            final(self).model().wf(),
            final(self).model() == (SpongeModel {
                capacity: final(self).model().capacity,
                ..old(self).model()
            }),
            can_finalize(session(*old(self), *old(c))) ==> r is Ok && session(
                *final(self),
                *final(c),
            ) == finalize_spec::<C, Self>(session(*old(self), *old(c))),
            !can_finalize(session(*old(self), *old(c))) ==> r == Err::<(), SpongeError>(
                SpongeError::CountOverflow,
            ) && session(*final(self), *final(c)) == session(*old(self), *old(c)),
    {
        let log = self.get_log();
        let separator = self.serialized_domain_separator();
        match tag_preimage(log.as_slice(), separator.as_slice()) {
            Ok(items) => {
                let tag = self.tag_hasher(items);
                self.initialize_capacity(c, tag);
                Ok(())
            },
            Err(e) => Err(e),
        }
    }
}

} // verus!
