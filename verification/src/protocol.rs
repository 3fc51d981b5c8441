//! The public protocol of a sponge: absorbing and squeezing in batches, and
//! finalizing.

use crate::action::{SpongeAction, MAX_COUNT};
use crate::error::SpongeError;
use crate::log::{batches, compress, entry, lemma_extend_push, lemma_split_invariance, total};
use crate::state::{
    absorb_one_spec, can_finalize, finalize_spec, lemma_absorb_one_keeps_wf,
    lemma_permute_keeps_wf, lemma_squeeze_one_keeps_wf, permute_spec, session,
    squeeze_one_output, squeeze_one_spec, tag_spec, Circuit, Session, SpongeModel, SpongeSpec,
    TSpongePrivate,
};
use vstd::prelude::*;

verus! {

/// The session with one more entry at the end of its history.
pub open spec fn logged<C: Circuit>(s: Session<C>, action: SpongeAction) -> Session<C> {
    Session { sponge: SpongeModel { log: s.sponge.log.push(action), ..s.sponge }, circuit: s.circuit }
}

/// The session after the elements of `inputs` have been absorbed one by one,
/// first to last.
pub open spec fn absorb_all_spec<C: Circuit, S: SpongeSpec<C>>(
    s: Session<C>,
    inputs: Seq<C::Signal>,
) -> Session<C>
    decreases inputs.len(),
{
    if inputs.len() == 0 {
        s
    } else {
        absorb_one_spec::<C, S>(absorb_all_spec::<C, S>(s, inputs.drop_last()), inputs.last())
    }
}

/// The session after one call that absorbs `inputs`: unchanged if there are
/// none; otherwise with one entry for the whole batch in the history, and the
/// elements absorbed one by one.
pub open spec fn absorb_spec<C: Circuit, S: SpongeSpec<C>>(
    s: Session<C>,
    inputs: Seq<C::Signal>,
) -> Session<C> {
    if inputs.len() == 0 {
        s
    } else {
        absorb_all_spec::<C, S>(logged(s, SpongeAction::Absorb(inputs.len() as u32)), inputs)
    }
}

/// The session after `n` elements have been squeezed one by one.
pub open spec fn squeeze_all_spec<C: Circuit, S: SpongeSpec<C>>(
    s: Session<C>,
    n: nat,
) -> Session<C>
    decreases n,
{
    if n == 0 {
        s
    } else {
        squeeze_one_spec::<C, S>(squeeze_all_spec::<C, S>(s, (n - 1) as nat))
    }
}

/// The elements that `n` squeezes give, one by one: the element at `i` is what
/// one squeeze gives after `i` squeezes.
pub open spec fn squeeze_all_output<C: Circuit, S: SpongeSpec<C>>(
    s: Session<C>,
    n: nat,
) -> Seq<C::Signal> {
    Seq::new(n, |i: int| squeeze_one_output::<C, S>(squeeze_all_spec::<C, S>(s, i as nat)))
}

/// The session after one call that squeezes `n` elements: unchanged if `n` is
/// zero; otherwise with one entry for the whole batch in the history, and the
/// elements squeezed one by one.
pub open spec fn squeeze_spec<C: Circuit, S: SpongeSpec<C>>(s: Session<C>, n: nat) -> Session<C> {
    if n == 0 {
        s
    } else {
        squeeze_all_spec::<C, S>(logged(s, SpongeAction::Squeeze(n as u32)), n)
    }
}

/// The elements that one call that squeezes `n` elements gives, in the order in
/// which they were squeezed.
pub open spec fn squeeze_output<C: Circuit, S: SpongeSpec<C>>(
    s: Session<C>,
    n: nat,
) -> Seq<C::Signal> {
    squeeze_all_output::<C, S>(logged(s, SpongeAction::Squeeze(n as u32)), n)
}

/// A sponge as its callers see it.
///
/// A batch may hold at most [`MAX_COUNT`] elements, so that its entry in the
/// history can be encoded. A longer one is refused, and so is a finalization
/// whose history cannot be compressed; a refused call changes nothing.
pub trait TSponge<C: Circuit>: TSpongePrivate<C> {
    /// A fresh sponge: both cursors at the first slot, no history. Rate and
    /// domain separator are the implementor's.
    fn new(c: &mut C) -> (s: Self)
        ensures
            s.model().wf(),
            s.model().absorb_pos == 0,
            s.model().squeeze_pos == 0,
            s.model().log == Seq::<SpongeAction>::empty(),
    ;

    /// Absorbs a batch of elements, first to last.
    ///
    /// With no elements it does nothing at all. Otherwise it adds one entry for
    /// the whole batch to the history and absorbs the elements one by one; the
    /// squeeze cursor is behind the last slot afterwards.
    fn absorb(&mut self, c: &mut C, inputs: Vec<C::Signal>) -> (r: Result<(), SpongeError>)
        requires
            old(self).model().wf(),
        ensures
            final(self).model().wf(),
            final(self).model().rate == old(self).model().rate,
            final(self).model().separator == old(self).model().separator,
            inputs@.len() == 0 ==> r is Ok && session(*final(self), *final(c)) == session(
                *old(self),
                *old(c),
            ),
            inputs@.len() <= MAX_COUNT ==> r is Ok && session(*final(self), *final(c))
                == absorb_spec::<C, Self>(session(*old(self), *old(c)), inputs@),
            0 < inputs@.len() <= MAX_COUNT ==> final(self).model().squeeze_pos
                == old(self).model().rate,
            0 < inputs@.len() <= MAX_COUNT ==> final(self).model().log
                == old(self).model().log.push(SpongeAction::Absorb(inputs@.len() as u32)),
            inputs@.len() > MAX_COUNT ==> r == Err::<(), SpongeError>(SpongeError::BatchTooLong)
                && session(*final(self), *final(c)) == session(*old(self), *old(c)),
    {
        if inputs.len() == 0 {
            return Ok(());
        }
        if inputs.len() > MAX_COUNT as usize {
            return Err(SpongeError::BatchTooLong);
        }
        let ghost before = session(*self, *c);
        let ghost all = inputs@;
        <Self as TSpongePrivate<C>>::add_log(self, SpongeAction::Absorb(inputs.len() as u32));
        let ghost start = session(*self, *c);
        for input in it: inputs
            invariant
                self.model().wf(),
                start.sponge.wf(),
                it.seq() == all,
                session(*self, *c) == absorb_all_spec::<C, Self>(start, all.take(it.index() as int)),
        {
            proof {
                assert(all.take(it.index() + 1).drop_last() =~= all.take(it.index() as int));
            }
            <Self as TSpongePrivate<C>>::absorb_one(self, c, input)
        }
        proof {
            assert(all.take(all.len() as int) =~= all);
            lemma_absorb_keeps_wf::<C, Self>(before, all);
        }
        Ok(())
    }

    /// Squeezes a batch of `length` elements and returns them in the order in
    /// which they were squeezed.
    ///
    /// With `length` zero it does nothing at all. Otherwise it adds one entry for
    /// the whole batch to the history and squeezes the elements one by one.
    fn squeeze(&mut self, c: &mut C, length: usize) -> (r: Result<Vec<C::Signal>, SpongeError>)
        requires
            old(self).model().wf(),
        ensures
            final(self).model().wf(),
            final(self).model().rate == old(self).model().rate,
            final(self).model().separator == old(self).model().separator,
            length == 0 ==> r is Ok && r->Ok_0@ == Seq::<C::Signal>::empty() && session(
                *final(self),
                *final(c),
            ) == session(*old(self), *old(c)),
            length <= MAX_COUNT ==> r is Ok && r->Ok_0@ == squeeze_output::<C, Self>(
                session(*old(self), *old(c)),
                length as nat,
            ) && session(*final(self), *final(c)) == squeeze_spec::<C, Self>(
                session(*old(self), *old(c)),
                length as nat,
            ),
            0 < length <= MAX_COUNT ==> r->Ok_0@.len() == length,
            0 < length <= MAX_COUNT ==> final(self).model().log
                == old(self).model().log.push(SpongeAction::Squeeze(length as u32)),
            length > MAX_COUNT ==> r == Err::<Vec<C::Signal>, SpongeError>(
                SpongeError::BatchTooLong,
            ) && session(*final(self), *final(c)) == session(*old(self), *old(c)),
    {
        if length == 0 {
            return Ok(Vec::new());
        }
        if length > MAX_COUNT as usize {
            return Err(SpongeError::BatchTooLong);
        }
        let ghost before = session(*self, *c);
        <Self as TSpongePrivate<C>>::add_log(self, SpongeAction::Squeeze(length as u32));
        let ghost start = session(*self, *c);
        let mut outputs: Vec<C::Signal> = Vec::new();
        let mut i: usize = 0;
        while i < length
            invariant
                i <= length,
                self.model().wf(),
                session(*self, *c) == squeeze_all_spec::<C, Self>(start, i as nat),
                outputs@ == squeeze_all_output::<C, Self>(start, i as nat),
            decreases length - i,
        {
            let output = <Self as TSpongePrivate<C>>::squeeze_one(self, c);
            outputs.push(output);
            i += 1;
            proof {
                assert(outputs@ =~= squeeze_all_output::<C, Self>(start, i as nat));
            }
        }
        proof {
            lemma_squeeze_keeps_wf::<C, Self>(before, length as nat);
        }
        Ok(outputs)
    }

    /// Derives the tag from the history and the domain separator and writes it
    /// into the capacity. Nothing but the capacity and the circuit changes.
    ///
    /// The call is refused exactly when the history cannot be compressed: when
    /// consecutive batches of one direction add up to more than [`MAX_COUNT`].
    ///
    /// The sponge keeps no record of having been finalized: a second call
    /// derives the tag again from the history as it then is, and absorbing and
    /// squeezing go on after it as before. Making this call once, when the
    /// history is complete, is up to the caller.
    fn finalize(&mut self, c: &mut C) -> (r: Result<(), SpongeError>)
        requires
            old(self).model().wf(),
        ensures
            final(self).model().wf(),
            final(self).model() == (SpongeModel {
                capacity: final(self).model().capacity,
                ..old(self).model()
            }),
            can_finalize(session(*old(self), *old(c))) ==> r is Ok && session(
                *final(self),
                *final(c),
            ) == finalize_spec::<C, Self>(session(*old(self), *old(c))),
            !can_finalize(session(*old(self), *old(c))) ==> r == Err::<(), SpongeError>(
                SpongeError::CountOverflow,
            ) && session(*final(self), *final(c)) == session(*old(self), *old(c)),
    {
        <Self as TSpongePrivate<C>>::finalize_tag(self, c)
    }
}

/// The session with another history in place of its own.
pub open spec fn with_log<C: Circuit>(s: Session<C>, log: Seq<SpongeAction>) -> Session<C> {
    Session { sponge: SpongeModel { log, ..s.sponge }, circuit: s.circuit }
}

/// The slots after `inputs` have been written into them one by one from the
/// slot at `at` on.
pub open spec fn overwritten<V>(slots: Seq<V>, at: nat, inputs: Seq<V>) -> Seq<V> {
    Seq::new(
        slots.len(),
        |i: int|
            if at <= i < at + inputs.len() {
                inputs[i - at]
            } else {
                slots[i]
            },
    )
}

/// Absorbing a batch leaves a valid sponge valid, with the rate and the domain
/// separator it had. If the batch was not empty, the squeeze cursor is behind the
/// last slot afterwards, so that the next squeeze starts with the permutation.
pub proof fn lemma_absorb_keeps_wf<C: Circuit, S: SpongeSpec<C>>(
    s: Session<C>,
    inputs: Seq<C::Signal>,
)
    requires
        s.sponge.wf(),
    ensures
        absorb_spec::<C, S>(s, inputs).sponge.wf(),
        absorb_spec::<C, S>(s, inputs).sponge.rate == s.sponge.rate,
        absorb_spec::<C, S>(s, inputs).sponge.separator == s.sponge.separator,
        inputs.len() > 0 ==> absorb_spec::<C, S>(s, inputs).sponge.squeeze_pos == s.sponge.rate,
        inputs.len() > 0 ==> absorb_spec::<C, S>(s, inputs).sponge.log == s.sponge.log.push(
            SpongeAction::Absorb(inputs.len() as u32),
        ),
{
    if inputs.len() > 0 {
        lemma_absorb_all_keeps_wf::<C, S>(
            logged(s, SpongeAction::Absorb(inputs.len() as u32)),
            inputs,
        );
    }
}

/// Absorbing elements one by one leaves a valid sponge valid and its history as
/// it was.
pub proof fn lemma_absorb_all_keeps_wf<C: Circuit, S: SpongeSpec<C>>(
    s: Session<C>,
    inputs: Seq<C::Signal>,
)
    requires
        s.sponge.wf(),
    ensures
        absorb_all_spec::<C, S>(s, inputs).sponge.wf(),
        absorb_all_spec::<C, S>(s, inputs).sponge.rate == s.sponge.rate,
        absorb_all_spec::<C, S>(s, inputs).sponge.separator == s.sponge.separator,
        absorb_all_spec::<C, S>(s, inputs).sponge.log == s.sponge.log,
        inputs.len() > 0 ==> absorb_all_spec::<C, S>(s, inputs).sponge.squeeze_pos
            == s.sponge.rate,
    decreases inputs.len(),
{
    if inputs.len() > 0 {
        lemma_absorb_all_keeps_wf::<C, S>(s, inputs.drop_last());
        lemma_absorb_one_keeps_wf::<C, S>(
            absorb_all_spec::<C, S>(s, inputs.drop_last()),
            inputs.last(),
        );
    }
}

/// Squeezing elements one by one leaves a valid sponge valid and its history as
/// it was.
pub proof fn lemma_squeeze_all_keeps_wf<C: Circuit, S: SpongeSpec<C>>(s: Session<C>, n: nat)
    requires
        s.sponge.wf(),
    ensures
        squeeze_all_spec::<C, S>(s, n).sponge.wf(),
        squeeze_all_spec::<C, S>(s, n).sponge.rate == s.sponge.rate,
        squeeze_all_spec::<C, S>(s, n).sponge.separator == s.sponge.separator,
        squeeze_all_spec::<C, S>(s, n).sponge.log == s.sponge.log,
    decreases n,
{
    if n > 0 {
        lemma_squeeze_all_keeps_wf::<C, S>(s, (n - 1) as nat);
        lemma_squeeze_one_keeps_wf::<C, S>(squeeze_all_spec::<C, S>(s, (n - 1) as nat));
    }
}

/// Squeezing a batch leaves a valid sponge valid, with the rate and the domain
/// separator it had, and gives as many elements as were asked for.
pub proof fn lemma_squeeze_keeps_wf<C: Circuit, S: SpongeSpec<C>>(s: Session<C>, n: nat)
    requires
        s.sponge.wf(),
    ensures
        squeeze_spec::<C, S>(s, n).sponge.wf(),
        squeeze_spec::<C, S>(s, n).sponge.rate == s.sponge.rate,
        squeeze_spec::<C, S>(s, n).sponge.separator == s.sponge.separator,
        squeeze_output::<C, S>(s, n).len() == n,
        n > 0 ==> squeeze_spec::<C, S>(s, n).sponge.log == s.sponge.log.push(
            SpongeAction::Squeeze(n as u32),
        ),
{
    if n > 0 {
        lemma_squeeze_all_keeps_wf::<C, S>(logged(s, SpongeAction::Squeeze(n as u32)), n);
    }
}

/// Elements that fit between the absorb cursor and the last slot are absorbed
/// without the permutation: they are written into the slots from the cursor on,
/// and nothing else changes but the cursors.
pub proof fn lemma_absorb_all_in_place<C: Circuit, S: SpongeSpec<C>>(
    s: Session<C>,
    inputs: Seq<C::Signal>,
)
    requires
        s.sponge.wf(),
        s.sponge.absorb_pos + inputs.len() <= s.sponge.rate,
    ensures
        absorb_all_spec::<C, S>(s, inputs) == (Session {
            sponge: SpongeModel {
                slots: overwritten(s.sponge.slots, s.sponge.absorb_pos, inputs),
                absorb_pos: s.sponge.absorb_pos + inputs.len(),
                squeeze_pos: if inputs.len() > 0 {
                    s.sponge.rate
                } else {
                    s.sponge.squeeze_pos
                },
                ..s.sponge
            },
            circuit: s.circuit,
        }),
    decreases inputs.len(),
{
    if inputs.len() == 0 {
        assert(overwritten(s.sponge.slots, s.sponge.absorb_pos, inputs) =~= s.sponge.slots);
    } else {
        let init = inputs.drop_last();
        lemma_absorb_all_in_place::<C, S>(s, init);
        assert(overwritten(s.sponge.slots, s.sponge.absorb_pos, inputs) =~= overwritten(
            s.sponge.slots,
            s.sponge.absorb_pos,
            init,
        ).update((s.sponge.absorb_pos + init.len()) as int, inputs.last()));
    }
}

/// From a sponge whose squeeze cursor is behind the last slot, squeezing up to
/// `rate` elements runs the permutation once, before the first of them, and then
/// reads the slots from the first one on.
pub proof fn lemma_squeeze_all_after_permutation<C: Circuit, S: SpongeSpec<C>>(
    s: Session<C>,
    n: nat,
)
    requires
        s.sponge.wf(),
        s.sponge.squeeze_pos == s.sponge.rate,
        0 < n <= s.sponge.rate,
    ensures
        squeeze_all_spec::<C, S>(s, n) == (Session {
            sponge: SpongeModel {
                absorb_pos: 0,
                squeeze_pos: n,
                ..permute_spec::<C, S>(s).sponge
            },
            circuit: permute_spec::<C, S>(s).circuit,
        }),
        squeeze_all_output::<C, S>(s, n) == permute_spec::<C, S>(s).sponge.slots.subrange(
            0,
            n as int,
        ),
    decreases n,
{
    let p = permute_spec::<C, S>(s);
    lemma_permute_keeps_wf::<C, S>(s);
    if n > 1 {
        lemma_squeeze_all_after_permutation::<C, S>(s, (n - 1) as nat);
    }
    assert(squeeze_all_spec::<C, S>(s, 0) == s);
    assert forall|i: int| 0 <= i < n implies squeeze_one_output::<C, S>(
        squeeze_all_spec::<C, S>(s, i as nat),
    ) == p.sponge.slots[i] by {
        if i > 0 {
            lemma_squeeze_all_after_permutation::<C, S>(s, i as nat);
        }
    }
    assert(squeeze_all_output::<C, S>(s, n) =~= p.sponge.slots.subrange(0, n as int));
}

/// Absorbing a batch that fits between the absorb cursor and the last slot, and
/// then squeezing as many elements, gives the first slots of the permutation of
/// what the absorb left. Unless the batch is empty, the permutation runs exactly
/// once: not while absorbing, and once before the first element is squeezed.
pub proof fn lemma_absorb_then_squeeze<C: Circuit, S: SpongeSpec<C>>(
    s: Session<C>,
    inputs: Seq<C::Signal>,
)
    requires
        s.sponge.wf(),
        s.sponge.absorb_pos + inputs.len() <= s.sponge.rate,
    ensures
        ({
            let n = inputs.len();
            let absorbed = absorb_spec::<C, S>(s, inputs);
            let permuted = permute_spec::<C, S>(absorbed);
            let squeezed = squeeze_spec::<C, S>(absorbed, n);
            &&& absorbed.circuit == s.circuit
            &&& absorbed.sponge.capacity == s.sponge.capacity
            &&& absorbed.sponge.slots == overwritten(s.sponge.slots, s.sponge.absorb_pos, inputs)
            &&& squeeze_output::<C, S>(absorbed, n) == permuted.sponge.slots.subrange(0, n as int)
            &&& n > 0 ==> {
                &&& squeezed.circuit == permuted.circuit
                &&& squeezed.sponge.slots == permuted.sponge.slots
                &&& squeezed.sponge.capacity == permuted.sponge.capacity
                &&& squeezed.sponge.absorb_pos == 0
                &&& squeezed.sponge.squeeze_pos == n
            }
        }),
{
    let n = inputs.len();
    let absorbed = absorb_spec::<C, S>(s, inputs);
    if n == 0 {
        assert(overwritten(s.sponge.slots, s.sponge.absorb_pos, inputs) =~= s.sponge.slots);
        lemma_permute_keeps_wf::<C, S>(absorbed);
        assert(squeeze_output::<C, S>(absorbed, n) =~= permute_spec::<C, S>(
            absorbed,
        ).sponge.slots.subrange(0, 0));
    } else {
        lemma_absorb_all_in_place::<C, S>(logged(s, SpongeAction::Absorb(n as u32)), inputs);
        lemma_squeeze_all_after_permutation::<C, S>(
            logged(absorbed, SpongeAction::Squeeze(n as u32)),
            n,
        );
    }
}

/// Whatever was absorbed last, the squeeze that follows starts with the
/// permutation, and with it alone: the first element that comes out is the first
/// slot of the permutation of what the absorb left, and the sponge after that
/// element is that permutation with the cursors at the first and the second slot.
pub proof fn lemma_squeeze_after_absorb_permutes<C: Circuit, S: SpongeSpec<C>>(
    s: Session<C>,
    input: C::Signal,
)
    requires
        s.sponge.wf(),
    ensures
        ({
            let absorbed = absorb_one_spec::<C, S>(s, input);
            let permuted = permute_spec::<C, S>(absorbed);
            &&& absorbed.sponge.squeeze_pos == absorbed.sponge.rate
            &&& squeeze_one_output::<C, S>(absorbed) == permuted.sponge.slots[0]
            &&& squeeze_one_spec::<C, S>(absorbed) == (Session {
                sponge: SpongeModel { absorb_pos: 0, squeeze_pos: 1, ..permuted.sponge },
                circuit: permuted.circuit,
            })
        }),
{
    lemma_absorb_one_keeps_wf::<C, S>(s, input);
}

/// The same for batches: after a batch that was not empty has been absorbed, the
/// first element of the batch squeezed next is the first slot of the permutation
/// of what the absorb left.
pub proof fn lemma_squeeze_after_absorb_batch<C: Circuit, S: SpongeSpec<C>>(
    s: Session<C>,
    inputs: Seq<C::Signal>,
    n: nat,
)
    requires
        s.sponge.wf(),
        inputs.len() > 0,
        n > 0,
    ensures
        ({
            let absorbed = absorb_spec::<C, S>(s, inputs);
            let permuted = permute_spec::<C, S>(absorbed);
            &&& absorbed.sponge.squeeze_pos == absorbed.sponge.rate
            &&& squeeze_output::<C, S>(absorbed, n)[0] == permuted.sponge.slots[0]
        }),
{
    lemma_absorb_keeps_wf::<C, S>(s, inputs);
}

/// The history does not bear on how elements are absorbed: absorbing under
/// another history gives the same sponge, but for the history.
pub proof fn lemma_absorb_all_with_log<C: Circuit, S: SpongeSpec<C>>(
    s: Session<C>,
    log: Seq<SpongeAction>,
    inputs: Seq<C::Signal>,
)
    ensures
        absorb_all_spec::<C, S>(with_log(s, log), inputs) == with_log(
            absorb_all_spec::<C, S>(s, inputs),
            log,
        ),
    decreases inputs.len(),
{
    if inputs.len() > 0 {
        lemma_absorb_all_with_log::<C, S>(s, log, inputs.drop_last());
    }
}

/// Absorbing two sequences of elements one after the other is absorbing the
/// elements of both in one go.
pub proof fn lemma_absorb_all_concat<C: Circuit, S: SpongeSpec<C>>(
    s: Session<C>,
    first: Seq<C::Signal>,
    second: Seq<C::Signal>,
)
    ensures
        absorb_all_spec::<C, S>(s, first + second) == absorb_all_spec::<C, S>(
            absorb_all_spec::<C, S>(s, first),
            second,
        ),
    decreases second.len(),
{
    if second.len() == 0 {
        assert(first + second =~= first);
    } else {
        lemma_absorb_all_concat::<C, S>(s, first, second.drop_last());
        assert((first + second).drop_last() =~= first + second.drop_last());
    }
}

/// Absorbing in two calls or in one makes no difference but in the raw history:
/// slots, capacity, cursors and circuit are the same, the compressed history is
/// the same, and so are the tag and what finalizing writes into the capacity.
pub proof fn lemma_split_absorb<C: Circuit, S: SpongeSpec<C>>(
    s: Session<C>,
    first: Seq<C::Signal>,
    second: Seq<C::Signal>,
)
    requires
        first.len() > 0,
        second.len() > 0,
        first.len() + second.len() <= MAX_COUNT,
    ensures
        ({
            let split = absorb_spec::<C, S>(absorb_spec::<C, S>(s, first), second);
            let whole = absorb_spec::<C, S>(s, first + second);
            &&& split == with_log(whole, split.sponge.log)
            &&& compress(split.sponge.log) == compress(whole.sponge.log)
            &&& can_finalize(split) == can_finalize(whole)
            &&& tag_spec::<C, S>(split) == tag_spec::<C, S>(whole)
            &&& finalize_spec::<C, S>(split) == with_log(
                finalize_spec::<C, S>(whole),
                split.sponge.log,
            )
        }),
{
    let a = first.len() as u32;
    let b = second.len() as u32;
    let log = s.sponge.log;
    let split_log = log.push(SpongeAction::Absorb(a)).push(SpongeAction::Absorb(b));
    let whole_log = log.push(SpongeAction::Absorb((a + b) as u32));
    let plain = absorb_all_spec::<C, S>(s, first + second);
    // the one call
    assert(logged(s, SpongeAction::Absorb((a + b) as u32)) == with_log(s, whole_log));
    lemma_absorb_all_with_log::<C, S>(s, whole_log, first + second);
    // the two calls
    let mid = absorb_all_spec::<C, S>(s, first);
    assert(logged(s, SpongeAction::Absorb(a)) == with_log(s, log.push(SpongeAction::Absorb(a))));
    lemma_absorb_all_with_log::<C, S>(s, log.push(SpongeAction::Absorb(a)), first);
    assert(logged(with_log(mid, log.push(SpongeAction::Absorb(a))), SpongeAction::Absorb(b))
        == with_log(mid, split_log));
    lemma_absorb_all_with_log::<C, S>(mid, split_log, second);
    lemma_absorb_all_concat::<C, S>(s, first, second);
    assert(absorb_spec::<C, S>(absorb_spec::<C, S>(s, first), second) == with_log(plain, split_log));
    assert(absorb_spec::<C, S>(s, first + second) == with_log(plain, whole_log));
    // the histories
    let parts = seq![a, b];
    assert(total(parts) == a + b) by {
        assert(parts.drop_last() =~= seq![a]);
        assert(seq![a].drop_last() =~= Seq::<u32>::empty());
        reveal_with_fuel(total, 3);
    }
    assert(log + batches(true, parts) + Seq::<SpongeAction>::empty() =~= split_log);
    assert(log.push(entry(true, (a + b) as u32)) + Seq::<SpongeAction>::empty() =~= whole_log);
    lemma_split_invariance(log, true, parts, Seq::empty(), s.sponge.separator);
}

/// The elements of the batches, one batch after the other.
pub open spec fn joined<V>(calls: Seq<Seq<V>>) -> Seq<V>
    decreases calls.len(),
{
    if calls.len() == 0 {
        Seq::empty()
    } else {
        joined(calls.drop_last()) + calls.last()
    }
}

/// The session after one call of `absorb` for each batch, first to last.
pub open spec fn absorb_calls_spec<C: Circuit, S: SpongeSpec<C>>(
    s: Session<C>,
    calls: Seq<Seq<C::Signal>>,
) -> Session<C>
    decreases calls.len(),
{
    if calls.len() == 0 {
        s
    } else {
        absorb_spec::<C, S>(absorb_calls_spec::<C, S>(s, calls.drop_last()), calls.last())
    }
}

/// Absorbing under another history gives the same sponge, but for the history,
/// which gets the same entry.
pub proof fn lemma_absorb_with_log<C: Circuit, S: SpongeSpec<C>>(
    s: Session<C>,
    log: Seq<SpongeAction>,
    inputs: Seq<C::Signal>,
)
    ensures
        absorb_spec::<C, S>(with_log(s, log), inputs) == with_log(
            absorb_spec::<C, S>(s, inputs),
            if inputs.len() == 0 {
                log
            } else {
                log.push(SpongeAction::Absorb(inputs.len() as u32))
            },
        ),
        inputs.len() > 0 ==> absorb_spec::<C, S>(s, inputs).sponge.log == s.sponge.log.push(
            SpongeAction::Absorb(inputs.len() as u32),
        ),
{
    if inputs.len() > 0 {
        let e = SpongeAction::Absorb(inputs.len() as u32);
        assert(logged(with_log(s, log), e) == with_log(s, log.push(e)));
        assert(logged(s, e) == with_log(s, s.sponge.log.push(e)));
        lemma_absorb_all_with_log::<C, S>(s, log.push(e), inputs);
        lemma_absorb_all_with_log::<C, S>(s, s.sponge.log.push(e), inputs);
    }
}

/// However the elements are cut into calls of `absorb`, the calls leave what one
/// call for all the elements leaves, but for the raw history: slots, capacity,
/// cursors and circuit are the same, the compressed history is the same, and so
/// are the tag and what finalizing writes into the capacity.
pub proof fn lemma_absorb_calls<C: Circuit, S: SpongeSpec<C>>(
    s: Session<C>,
    calls: Seq<Seq<C::Signal>>,
)
    requires
        joined(calls).len() <= MAX_COUNT,
    ensures
        ({
            let split = absorb_calls_spec::<C, S>(s, calls);
            let whole = absorb_spec::<C, S>(s, joined(calls));
            &&& split == with_log(whole, split.sponge.log)
            &&& compress(split.sponge.log) == compress(whole.sponge.log)
            &&& can_finalize(split) == can_finalize(whole)
            &&& tag_spec::<C, S>(split) == tag_spec::<C, S>(whole)
            &&& finalize_spec::<C, S>(split) == with_log(
                finalize_spec::<C, S>(whole),
                split.sponge.log,
            )
        }),
    decreases calls.len(),
{
    if calls.len() > 0 {
        let init = calls.drop_last();
        let last = calls.last();
        let front = joined(init);
        lemma_absorb_calls::<C, S>(s, init);
        let split0 = absorb_calls_spec::<C, S>(s, init);
        let whole0 = absorb_spec::<C, S>(s, front);
        let split = absorb_spec::<C, S>(split0, last);
        let whole = absorb_spec::<C, S>(s, front + last);
        if last.len() == 0 {
            assert(front + last =~= front);
        } else {
            let e = SpongeAction::Absorb(last.len() as u32);
            // the last call, after the calls before it and after one call for them
            let two = absorb_spec::<C, S>(whole0, last);
            lemma_absorb_with_log::<C, S>(whole0, split0.sponge.log, last);
            lemma_absorb_with_log::<C, S>(whole0, whole0.sponge.log, last);
            assert(with_log(whole0, whole0.sponge.log) == whole0);
            assert(split == with_log(two, split0.sponge.log.push(e)));
            assert(two.sponge.log == whole0.sponge.log.push(e));
            lemma_extend_push(Seq::empty(), split0.sponge.log, e);
            lemma_extend_push(Seq::empty(), whole0.sponge.log, e);
            assert(compress(split.sponge.log) == compress(two.sponge.log));
            // one call for them and the last call, and one call for all
            if front.len() == 0 {
                assert(front + last =~= last);
            } else {
                lemma_split_absorb::<C, S>(s, front, last);
            }
        }
    }
}

} // verus!
