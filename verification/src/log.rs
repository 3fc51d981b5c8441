//! Run-length compression of a call history, and the words that a tag is derived from.
//!
//! A history is a sequence of batches. Its compressed form merges every stretch
//! of consecutive batches of one direction into a single run that carries their
//! sum, so that it depends on what was absorbed and squeezed in which order, and
//! not on how the caller cut the work into calls.

use crate::action::{SpongeAction, MAX_COUNT};
use crate::error::SpongeError;
use vstd::prelude::*;

verus! {

/// A run of a compressed history: a direction, and the sum of the counts of the
/// consecutive batches that it stands for. The sum is exact: it is not cut to
/// the width of an entry.
pub struct Run {
    pub absorb: bool,
    pub total: nat,
}

impl Run {
    /// Whether the run's total can be carried by a history entry.
    pub open spec fn fits(self) -> bool {
        self.total <= MAX_COUNT
    }

    /// The run as a history entry. It carries the run's total where that fits.
    pub open spec fn action(self) -> SpongeAction {
        if self.absorb {
            SpongeAction::Absorb(self.total as u32)
        } else {
            SpongeAction::Squeeze(self.total as u32)
        }
    }
}

/// The run that a single batch makes.
pub open spec fn run_of(a: SpongeAction) -> Run {
    Run { absorb: a.is_absorb(), total: a.count() as nat }
}

/// Adds one batch at the end of a compressed history: it joins the last run if
/// that has its direction, and starts a new run otherwise.
pub open spec fn merge(runs: Seq<Run>, a: SpongeAction) -> Seq<Run> {
    if runs.len() > 0 && runs.last().absorb == a.is_absorb() {
        runs.drop_last().push(
            Run { absorb: runs.last().absorb, total: runs.last().total + a.count() as nat },
        )
    } else {
        runs.push(run_of(a))
    }
}

/// Adds the batches of `log`, first to last, at the end of a compressed history.
pub open spec fn extend(runs: Seq<Run>, log: Seq<SpongeAction>) -> Seq<Run>
    decreases log.len(),
{
    if log.len() == 0 {
        runs
    } else {
        merge(extend(runs, log.drop_last()), log.last())
    }
}

/// The compressed form of a history.
pub open spec fn compress(log: Seq<SpongeAction>) -> Seq<Run> {
    extend(Seq::empty(), log)
}

/// Whether every run can be carried by a history entry.
pub open spec fn all_fit(runs: Seq<Run>) -> bool {
    forall|i: int| 0 <= i < runs.len() ==> (#[trigger] runs[i]).fits()
}

/// The runs as history entries.
pub open spec fn actions(runs: Seq<Run>) -> Seq<SpongeAction> {
    runs.map_values(|r: Run| r.action())
}

/// The runs as encoded words.
pub open spec fn words(runs: Seq<Run>) -> Seq<u32> {
    runs.map_values(|r: Run| r.action().word())
}

/// What the tag of a sponge is derived from: the encoded compressed history,
/// followed by the words of the domain separator.
pub open spec fn tag_input(log: Seq<SpongeAction>, separator: Seq<u32>) -> Seq<u32> {
    words(compress(log)) + separator
}

/// The history entry of one batch of `n` elements.
pub open spec fn entry(absorb: bool, n: u32) -> SpongeAction {
    if absorb {
        SpongeAction::Absorb(n)
    } else {
        SpongeAction::Squeeze(n)
    }
}

/// The entries that a caller leaves who moves `parts[0]`, then `parts[1]`, and so
/// on, elements in one direction, one call for each.
pub open spec fn batches(absorb: bool, parts: Seq<u32>) -> Seq<SpongeAction> {
    parts.map_values(|n: u32| entry(absorb, n))
}

/// The sum of the counts.
pub open spec fn total(parts: Seq<u32>) -> nat
    decreases parts.len(),
{
    if parts.len() == 0 {
        0
    } else {
        total(parts.drop_last()) + parts.last() as nat
    }
}

/// Compressing a history with one more batch is merging that batch into the
/// compressed history.
pub proof fn lemma_extend_push(runs: Seq<Run>, log: Seq<SpongeAction>, a: SpongeAction)
    ensures
        extend(runs, log.push(a)) == merge(extend(runs, log), a),
{
    assert(log.push(a).drop_last() =~= log);
}

/// Compressing two histories one after the other is compressing the first and
/// going on from there with the second.
pub proof fn lemma_extend_concat(
    runs: Seq<Run>,
    first: Seq<SpongeAction>,
    second: Seq<SpongeAction>,
)
    ensures
        extend(runs, first + second) == extend(extend(runs, first), second),
    decreases second.len(),
{
    if second.len() == 0 {
        assert(first + second =~= first);
    } else {
        lemma_extend_concat(runs, first, second.drop_last());
        assert((first + second).drop_last() =~= first + second.drop_last());
        assert((first + second).last() == second.last());
    }
}

/// Merging leaves a new batch in the last run, and every run that fitted before
/// the merge was there before it: a history whose compressed form fits has only
/// prefixes whose compressed forms fit.
pub proof fn lemma_fits_before_merge(runs: Seq<Run>, a: SpongeAction)
    requires
        all_fit(merge(runs, a)),
    ensures
        all_fit(runs),
{
    let merged = merge(runs, a);
    assert forall|i: int| 0 <= i < runs.len() implies (#[trigger] runs[i]).fits() by {
        assert(merged[i].fits());
    }
}

/// If the compressed form of a whole history fits, so does what it was extended
/// from.
pub proof fn lemma_fits_before_extend(runs: Seq<Run>, log: Seq<SpongeAction>)
    requires
        all_fit(extend(runs, log)),
    ensures
        all_fit(runs),
    decreases log.len(),
{
    if log.len() > 0 {
        lemma_fits_before_merge(extend(runs, log.drop_last()), log.last());
        lemma_fits_before_extend(runs, log.drop_last());
    }
}

/// Whether no two neighbouring runs have the same direction.
pub open spec fn alternates(runs: Seq<Run>) -> bool {
    forall|i: int| 0 < i < runs.len() ==> runs[i - 1].absorb != (#[trigger] runs[i]).absorb
}

/// Adding batches to runs of which no two neighbours have the same direction
/// gives such runs again.
pub proof fn lemma_extend_alternates(runs: Seq<Run>, log: Seq<SpongeAction>)
    requires
        alternates(runs),
    ensures
        alternates(extend(runs, log)),
    decreases log.len(),
{
    if log.len() > 0 {
        lemma_extend_alternates(runs, log.drop_last());
        let before = extend(runs, log.drop_last());
        let after = merge(before, log.last());
        assert forall|i: int| 0 < i < after.len() implies after[i - 1].absorb
            != (#[trigger] after[i]).absorb by {
            if i < before.len() {
                assert(before[i - 1].absorb != before[i].absorb);
            }
        }
    }
}

/// The compressed form of any history has no two neighbouring runs of one
/// direction.
pub proof fn lemma_compress_alternates(log: Seq<SpongeAction>)
    ensures
        alternates(compress(log)),
{
    lemma_extend_alternates(Seq::empty(), log);
}

/// A compressed history is its own compressed form: runs of which no two
/// neighbours have the same direction, and which all fit, come back unchanged
/// when they are compressed as entries.
pub proof fn lemma_compress_of_compressed(runs: Seq<Run>)
    requires
        alternates(runs),
        all_fit(runs),
    ensures
        compress(actions(runs)) == runs,
    decreases runs.len(),
{
    let log = actions(runs);
    if runs.len() == 0 {
        assert(compress(log) =~= runs);
    } else {
        let init = runs.drop_last();
        assert(log.drop_last() =~= actions(init));
        assert(alternates(init)) by {
            assert forall|i: int| 0 < i < init.len() implies init[i - 1].absorb
                != (#[trigger] init[i]).absorb by {
                assert(runs[i - 1].absorb != runs[i].absorb);
            }
        }
        assert(all_fit(init)) by {
            assert forall|i: int| 0 <= i < init.len() implies (#[trigger] init[i]).fits() by {
                assert(runs[i].fits());
            }
        }
        lemma_compress_of_compressed(init);
        assert(runs.last().fits());
        assert(run_of(log.last()) == runs.last());
        if init.len() > 0 {
            assert(runs[runs.len() - 2].absorb != runs[runs.len() - 1].absorb);
        }
        assert(merge(init, log.last()) =~= runs);
    }
}

/// Two batches of one direction, one after the other, compress to what the one
/// batch of their sum compresses to.
pub proof fn lemma_merge_joins(runs: Seq<Run>, absorb: bool, a: u32, b: u32)
    requires
        a + b <= u32::MAX,
    ensures
        merge(merge(runs, entry(absorb, a)), entry(absorb, b)) == merge(
            runs,
            entry(absorb, (a + b) as u32),
        ),
{
    let once = merge(runs, entry(absorb, a));
    assert(once.len() > 0 && once.last().absorb == absorb);
    if runs.len() > 0 && runs.last().absorb == absorb {
        assert(once.drop_last() =~= runs.drop_last());
    } else {
        assert(once.drop_last() =~= runs);
    }
    assert(merge(once, entry(absorb, b)) =~= merge(runs, entry(absorb, (a + b) as u32)));
}

/// However a caller cuts a number of elements into calls of one direction, the
/// entries compress to what a single call for all of them compresses to.
pub proof fn lemma_split_batches(runs: Seq<Run>, absorb: bool, parts: Seq<u32>)
    requires
        parts.len() > 0,
        total(parts) <= u32::MAX,
    ensures
        extend(runs, batches(absorb, parts)) == merge(runs, entry(absorb, total(parts) as u32)),
    decreases parts.len(),
{
    let log = batches(absorb, parts);
    let init = parts.drop_last();
    assert(log.drop_last() =~= batches(absorb, init));
    assert(log.last() == entry(absorb, parts.last()));
    if init.len() == 0 {
        assert(total(init) == 0);
        assert(extend(runs, log.drop_last()) == runs);
    } else {
        lemma_split_batches(runs, absorb, init);
        lemma_merge_joins(runs, absorb, total(init) as u32, parts.last());
    }
}

/// The compressed history, and with it what the tag is derived from, does not
/// depend on how a stretch of calls of one direction was cut: in any history, one
/// call for `total(parts)` elements can stand for the calls for `parts[0]`,
/// `parts[1]`, and so on.
pub proof fn lemma_split_invariance(
    before: Seq<SpongeAction>,
    absorb: bool,
    parts: Seq<u32>,
    after: Seq<SpongeAction>,
    separator: Seq<u32>,
)
    requires
        parts.len() > 0,
        total(parts) <= u32::MAX,
    ensures
        compress(before + batches(absorb, parts) + after) == compress(
            before.push(entry(absorb, total(parts) as u32)) + after,
        ),
        tag_input(before + batches(absorb, parts) + after, separator) == tag_input(
            before.push(entry(absorb, total(parts) as u32)) + after,
            separator,
        ),
{
    let split = batches(absorb, parts);
    let whole = entry(absorb, total(parts) as u32);
    let start = Seq::<Run>::empty();
    lemma_extend_concat(start, before + split, after);
    lemma_extend_concat(start, before, split);
    lemma_split_batches(extend(start, before), absorb, parts);
    lemma_extend_concat(start, before.push(whole), after);
    lemma_extend_push(start, before, whole);
}

/// With one history, two different domain separators give two different inputs
/// to the tag.
pub proof fn lemma_separator_distinguishes(
    log: Seq<SpongeAction>,
    first: Seq<u32>,
    second: Seq<u32>,
)
    requires
        first != second,
    ensures
        tag_input(log, first) != tag_input(log, second),
{
    let head = words(compress(log));
    if head + first == head + second {
        assert((head + first).len() == (head + second).len());
        assert forall|i: int| 0 <= i < first.len() implies first[i] == second[i] by {
            assert((head + first)[head.len() + i] == first[i]);
            assert((head + second)[head.len() + i] == second[i]);
        }
        assert(first =~= second);
    }
}

/// Compresses a history. It succeeds exactly when every run of the compressed
/// history has a total that an entry can carry, and then returns the runs as
/// entries, in order.
pub fn compress_log(log: &[SpongeAction]) -> (r: Result<Vec<SpongeAction>, SpongeError>)
    ensures
        all_fit(compress(log@)) ==> r is Ok && r->Ok_0@ == actions(compress(log@)),
        !all_fit(compress(log@)) ==> r == Err::<Vec<SpongeAction>, SpongeError>(
            SpongeError::CountOverflow,
        ),
{
    let mut acc: Vec<SpongeAction> = Vec::new();
    let mut i: usize = 0;
    while i < log.len()
        invariant
            i <= log.len(),
            all_fit(compress(log@.take(i as int))),
            acc@ == actions(compress(log@.take(i as int))),
        decreases log.len() - i,
    {
        let next = log[i];
        let ghost runs = compress(log@.take(i as int));
        proof {
            assert(log@.take(i + 1) =~= log@.take(i as int).push(next));
            lemma_extend_push(Seq::empty(), log@.take(i as int), next);
            assert(log@ =~= log@.take(i + 1) + log@.skip(i + 1));
            lemma_extend_concat(Seq::empty(), log@.take(i + 1), log@.skip(i + 1));
            if all_fit(compress(log@)) {
                lemma_fits_before_extend(compress(log@.take(i + 1)), log@.skip(i + 1));
            }
            if runs.len() > 0 {
                assert(runs.last().fits());
                assert(acc@.last() == runs.last().action());
            }
        }
        let last = if acc.len() > 0 {
            Some(acc[acc.len() - 1])
        } else {
            None
        };
        // A sum beyond the width of a count saturates, and is refused below like
        // any other that an entry cannot carry.
        let merged = match (last, next) {
            (Some(SpongeAction::Absorb(a)), SpongeAction::Absorb(b)) => {
                acc.pop();
                SpongeAction::Absorb(a.saturating_add(b))
            },
            (Some(SpongeAction::Squeeze(a)), SpongeAction::Squeeze(b)) => {
                acc.pop();
                SpongeAction::Squeeze(a.saturating_add(b))
            },
            _ => next,
        };
        let count = match merged {
            SpongeAction::Absorb(v) => v,
            SpongeAction::Squeeze(v) => v,
        };
        if count > MAX_COUNT {
            proof {
                assert(!merge(runs, next).last().fits());
            }
            return Err(SpongeError::CountOverflow);
        }
        acc.push(merged);
        proof {
            let after = merge(runs, next);
            assert(after.last().action() == merged);
            assert(acc@ =~= actions(after));
            assert forall|k: int| 0 <= k < after.len() implies (#[trigger] after[k]).fits() by {
                if k < after.len() - 1 {
                    assert(runs[k].fits());
                }
            }
        }
        i += 1;
    }
    proof {
        assert(log@.take(i as int) =~= log@);
    }
    Ok(acc)
}

/// Builds what the tag of a sponge is derived from: the compressed history,
/// entry by entry as encoded words, then the words of the domain separator. It
/// succeeds exactly when the history can be compressed.
pub fn tag_preimage(log: &[SpongeAction], separator: &[u32]) -> (r: Result<Vec<u32>, SpongeError>)
    ensures
        all_fit(compress(log@)) ==> r is Ok && r->Ok_0@ == tag_input(log@, separator@),
        !all_fit(compress(log@)) ==> r == Err::<Vec<u32>, SpongeError>(SpongeError::CountOverflow),
{
    let compressed = match compress_log(log) {
        Ok(compressed) => compressed,
        Err(e) => {
            return Err(e);
        },
    };
    let ghost runs = compress(log@);
    let mut items: Vec<u32> = Vec::new();
    let mut i: usize = 0;
    while i < compressed.len()
        invariant
            i <= compressed.len(),
            compressed@ == actions(runs),
            items@ == words(runs).take(i as int),
        decreases compressed.len() - i,
    {
        items.push(compressed[i].serialize());
        proof {
            assert(items@ =~= words(runs).take(i + 1));
        }
        i += 1;
    }
    let mut j: usize = 0;
    while j < separator.len()
        invariant
            j <= separator.len(),
            items@ == words(runs) + separator@.take(j as int),
        decreases separator.len() - j,
    {
        items.push(separator[j]);
        proof {
            assert(items@ =~= words(runs) + separator@.take(j + 1));
        }
        j += 1;
    }
    proof {
        assert(separator@.take(j as int) =~= separator@);
    }
    Ok(items)
}

} // verus!
