use sponge::SpongeAction::{Absorb, Squeeze};
use sponge::{
    Circuit, Poseidon, PoseidonImpl, SpongeAction, SpongeError, SpongeModel, SpongeSpec, TSponge,
    TSpongePrivate, MAX_COUNT,
};
use vstd::seq::Seq;

// A small sponge over machine words. Its circuit counts the permutations.

#[derive(Clone, Debug, PartialEq)]
struct Tape {
    permutations: u64,
}

impl Circuit for Tape {
    type Signal = u64;
}

#[derive(Clone, Debug, PartialEq)]
struct Duplex {
    rate: usize,
    absorb_pos: usize,
    squeeze_pos: usize,
    log: Vec<SpongeAction>,
    separator: Vec<u32>,
    slots: Vec<u64>,
    capacity: u64,
}

fn mix(x: u64, capacity: u64, i: usize) -> u64 {
    x.wrapping_mul(3).wrapping_add(capacity).wrapping_add(i as u64)
}

fn permuted(slots: &[u64], capacity: u64) -> Vec<u64> {
    let mut out = Vec::new();
    for (i, x) in slots.iter().enumerate() {
        out.push(mix(*x, capacity, i));
    }
    out
}

fn fold(items: &[u32]) -> u64 {
    let mut h: u64 = 7;
    for w in items {
        h = h.wrapping_mul(31).wrapping_add(*w as u64);
    }
    h
}

// The five functions of `SpongeSpec`, and `separator_words` below, exist for the
// verifier alone: nothing calls them in a running program.
impl SpongeSpec<Tape> for Duplex {
    type Field = u64;

    fn model(&self) -> SpongeModel<u64> {
        unreachable!()
    }

    fn tag(_items: Seq<u32>) -> u64 {
        unreachable!()
    }

    fn permutation(_slots: Seq<u64>, _capacity: Seq<u64>, _circuit: Tape) -> (Seq<u64>, Seq<u64>, Tape) {
        unreachable!()
    }

    fn capacity_injection(_capacity: Seq<u64>, _circuit: Tape, _tag: u64) -> (Seq<u64>, Tape) {
        unreachable!()
    }

    fn lemma_permutation_keeps_slots(_slots: Seq<u64>, _capacity: Seq<u64>, _circuit: Tape) {
        unreachable!()
    }
}

impl TSpongePrivate<Tape> for Duplex {
    type DomainSeparator = Vec<u32>;

    fn separator_words(_sep: Vec<u32>) -> Seq<u32> {
        unreachable!()
    }

    fn rate(&self) -> usize {
        self.rate
    }

    fn absorb_pos(&self) -> usize {
        self.absorb_pos
    }

    fn set_absorb_pos(&mut self, new_pos: usize) {
        self.absorb_pos = new_pos;
    }

    fn squeeze_pos(&self) -> usize {
        self.squeeze_pos
    }

    fn set_squeeze_pos(&mut self, new_pos: usize) {
        self.squeeze_pos = new_pos;
    }

    fn init(_c: &mut Tape, sep: Vec<u32>, rate: usize) -> Self {
        Duplex {
            rate,
            absorb_pos: 0,
            squeeze_pos: 0,
            log: Vec::new(),
            separator: sep,
            slots: vec![0; rate],
            capacity: 0,
        }
    }

    fn add_log(&mut self, action: SpongeAction) {
        self.log.push(action);
    }

    fn get_log(&self) -> Vec<SpongeAction> {
        self.log.clone()
    }

    fn tag_hasher(&self, items: Vec<u32>) -> u64 {
        fold(&items)
    }

    fn serialized_domain_separator(&self) -> Vec<u32> {
        self.separator.clone()
    }

    fn initialize_capacity(&mut self, _c: &mut Tape, capacity: u64) {
        self.capacity = capacity;
    }

    fn read_rate_element(&self, offset: usize) -> u64 {
        self.slots[offset]
    }

    fn add_rate_element(&mut self, offset: usize, value: u64) {
        self.slots[offset] = value;
    }

    fn permute(&mut self, c: &mut Tape) {
        self.slots = permuted(&self.slots, self.capacity);
        self.capacity = self.capacity.wrapping_add(1);
        c.permutations = c.permutations.wrapping_add(1);
    }
}

const SEPARATOR: u32 = 0x5350_4f4e;

impl TSponge<Tape> for Duplex {
    fn new(c: &mut Tape) -> Self {
        <Duplex as TSpongePrivate<Tape>>::init(c, vec![SEPARATOR], 2)
    }
}

struct Binding;

impl PoseidonImpl<Tape> for Binding {
    type Sponge = Duplex;
}

impl Poseidon<Binding> for Tape {}

fn tape() -> Tape {
    Tape { permutations: 0 }
}

fn sponge(c: &mut Tape, sep: &[u32], rate: usize) -> Duplex {
    <Duplex as TSpongePrivate<Tape>>::init(c, sep.to_vec(), rate)
}

// A sponge whose values hold nothing, so that a batch of any length costs no memory.

struct Void;

impl Circuit for Void {
    type Signal = ();
}

#[derive(Clone, Debug, PartialEq)]
struct Hollow {
    absorb_pos: usize,
    squeeze_pos: usize,
    log: Vec<SpongeAction>,
    tagged: bool,
}

impl SpongeSpec<Void> for Hollow {
    type Field = ();

    fn model(&self) -> SpongeModel<()> {
        unreachable!()
    }

    fn tag(_items: Seq<u32>) {
        unreachable!()
    }

    fn permutation(_slots: Seq<()>, _capacity: Seq<()>, _circuit: Void) -> (Seq<()>, Seq<()>, Void) {
        unreachable!()
    }

    fn capacity_injection(_capacity: Seq<()>, _circuit: Void, _tag: ()) -> (Seq<()>, Void) {
        unreachable!()
    }

    fn lemma_permutation_keeps_slots(_slots: Seq<()>, _capacity: Seq<()>, _circuit: Void) {
        unreachable!()
    }
}

impl TSpongePrivate<Void> for Hollow {
    type DomainSeparator = ();

    fn separator_words(_sep: ()) -> Seq<u32> {
        unreachable!()
    }

    fn rate(&self) -> usize {
        1
    }

    fn absorb_pos(&self) -> usize {
        self.absorb_pos
    }

    fn set_absorb_pos(&mut self, new_pos: usize) {
        self.absorb_pos = new_pos;
    }

    fn squeeze_pos(&self) -> usize {
        self.squeeze_pos
    }

    fn set_squeeze_pos(&mut self, new_pos: usize) {
        self.squeeze_pos = new_pos;
    }

    fn init(_c: &mut Void, _sep: (), _rate: usize) -> Self {
        Hollow { absorb_pos: 0, squeeze_pos: 0, log: Vec::new(), tagged: false }
    }

    fn add_log(&mut self, action: SpongeAction) {
        self.log.push(action);
    }

    fn get_log(&self) -> Vec<SpongeAction> {
        self.log.clone()
    }

    fn tag_hasher(&self, _items: Vec<u32>) {}

    fn serialized_domain_separator(&self) -> Vec<u32> {
        Vec::new()
    }

    fn initialize_capacity(&mut self, _c: &mut Void, _capacity: ()) {
        self.tagged = true;
    }

    fn read_rate_element(&self, _offset: usize) {}

    fn add_rate_element(&mut self, _offset: usize, _value: ()) {}

    fn permute(&mut self, _c: &mut Void) {}
}

impl TSponge<Void> for Hollow {
    fn new(c: &mut Void) -> Self {
        <Hollow as TSpongePrivate<Void>>::init(c, (), 1)
    }
}

#[test]
fn fresh_sponge_has_cursors_at_the_first_slot_and_no_history() {
    let mut c = tape();
    let s = <Duplex as TSponge<Tape>>::new(&mut c);
    assert_eq!(s.rate(), 2);
    assert_eq!(s.absorb_pos(), 0);
    assert_eq!(s.squeeze_pos(), 0);
    assert_eq!(s.get_log(), vec![]);
    assert_eq!(s.serialized_domain_separator(), vec![SEPARATOR]);
    assert_eq!(c.permutations, 0);
}

#[test]
fn rate_two_absorb_three_squeeze_two_finalize() {
    let mut c = tape();
    let mut s = <Duplex as TSponge<Tape>>::new(&mut c);

    assert_eq!(s.absorb(&mut c, vec![10, 20, 30]), Ok(()));
    assert_eq!(c.permutations, 1);
    assert_eq!(s.absorb_pos, 1);
    assert_eq!(s.squeeze_pos, 2);
    assert_eq!(s.slots, vec![30, 61]);
    assert_eq!(s.log, vec![Absorb(3)]);

    assert_eq!(s.squeeze(&mut c, 2), Ok(vec![91, 185]));
    assert_eq!(c.permutations, 2);
    assert_eq!(s.absorb_pos, 0);
    assert_eq!(s.squeeze_pos, 2);
    assert_eq!(s.log, vec![Absorb(3), Squeeze(2)]);

    assert_eq!(TSponge::finalize(&mut s, &mut c), Ok(()));
    assert_eq!(s.capacity, fold(&[0x8000_0003, 0x0000_0002, SEPARATOR]));
    assert_eq!(s.capacity, 2_065_129_769_320);
    assert_eq!(c.permutations, 2);
    assert_eq!(s.slots, vec![91, 185]);
    assert_eq!(s.log, vec![Absorb(3), Squeeze(2)]);
}

#[test]
fn absorbing_and_squeezing_as_many_permutes_once() {
    for n in 1..=4usize {
        let mut c = tape();
        let mut s = sponge(&mut c, &[1], 4);
        let inputs: Vec<u64> = (0..n as u64).map(|i| 5 + i).collect();

        assert_eq!(s.absorb(&mut c, inputs.clone()), Ok(()));
        assert_eq!(c.permutations, 0);
        let mut written = vec![0u64; 4];
        written[..n].copy_from_slice(&inputs);
        assert_eq!(s.slots, written);

        let expected = permuted(&written, 0);
        assert_eq!(s.squeeze(&mut c, n), Ok(expected[..n].to_vec()));
        assert_eq!(c.permutations, 1);
        assert_eq!(s.slots, expected);
        assert_eq!(s.absorb_pos, 0);
        assert_eq!(s.squeeze_pos, n);
    }
}

#[test]
fn absorbing_three_of_four_and_squeezing_three() {
    let mut c = tape();
    let mut s = sponge(&mut c, &[1], 4);
    assert_eq!(s.absorb(&mut c, vec![5, 6, 7]), Ok(()));
    assert_eq!(s.squeeze(&mut c, 3), Ok(vec![15, 19, 23]));
    assert_eq!(s.slots, vec![15, 19, 23, 3]);
    assert_eq!(c.permutations, 1);
}

#[test]
fn absorbing_nothing_changes_nothing() {
    let mut c = tape();
    let mut s = sponge(&mut c, &[1, 2], 3);
    s.absorb(&mut c, vec![4, 5]).unwrap();
    s.squeeze(&mut c, 1).unwrap();
    let before = (s.clone(), c.clone());
    assert_eq!(s.absorb(&mut c, vec![]), Ok(()));
    assert_eq!((s, c), before);
}

#[test]
fn squeezing_nothing_changes_nothing() {
    let mut c = tape();
    let mut s = sponge(&mut c, &[1, 2], 3);
    s.absorb(&mut c, vec![4, 5]).unwrap();
    let before = (s.clone(), c.clone());
    assert_eq!(s.squeeze(&mut c, 0), Ok(vec![]));
    assert_eq!((s, c), before);
}

#[test]
fn empty_batches_on_a_fresh_sponge() {
    let mut c = tape();
    let mut s = <Duplex as TSponge<Tape>>::new(&mut c);
    let before = s.clone();
    assert_eq!(s.absorb(&mut c, vec![]), Ok(()));
    assert_eq!(s.squeeze(&mut c, 0), Ok(vec![]));
    assert_eq!(s, before);
    assert_eq!(s.log, vec![]);
    assert_eq!(c.permutations, 0);
}

#[test]
fn one_call_or_two_give_the_same_sponge_and_tag() {
    let mut c1 = tape();
    let mut split = sponge(&mut c1, &[9], 2);
    split.absorb(&mut c1, vec![1, 2, 3]).unwrap();
    split.absorb(&mut c1, vec![4, 5]).unwrap();

    let mut c2 = tape();
    let mut whole = sponge(&mut c2, &[9], 2);
    whole.absorb(&mut c2, vec![1, 2, 3, 4, 5]).unwrap();

    assert_eq!(split.log, vec![Absorb(3), Absorb(2)]);
    assert_eq!(whole.log, vec![Absorb(5)]);
    assert_eq!(split.slots, whole.slots);
    assert_eq!(split.capacity, whole.capacity);
    assert_eq!((split.absorb_pos, split.squeeze_pos), (whole.absorb_pos, whole.squeeze_pos));
    assert_eq!(c1, c2);

    assert_eq!(TSponge::finalize(&mut split, &mut c1), Ok(()));
    assert_eq!(TSponge::finalize(&mut whole, &mut c2), Ok(()));
    assert_eq!(split.capacity, whole.capacity);
    assert_eq!(whole.capacity, fold(&[0x8000_0005, 9]));
}

#[test]
fn tag_of_five_absorbed_elements() {
    let mut c = tape();
    let mut s = <Duplex as TSponge<Tape>>::new(&mut c);
    s.absorb(&mut c, vec![1, 2]).unwrap();
    s.absorb(&mut c, vec![3]).unwrap();
    s.absorb(&mut c, vec![4, 5]).unwrap();
    assert_eq!(TSponge::finalize(&mut s, &mut c), Ok(()));
    assert_eq!(s.capacity, 67_969_772_080);
}

#[test]
fn squeeze_after_absorb_permutes_once() {
    for rate in 1..=4usize {
        for absorbed in 1..=6usize {
            let mut c = tape();
            let mut s = sponge(&mut c, &[], rate);
            s.absorb(&mut c, vec![3; absorbed]).unwrap();
            assert_eq!(s.squeeze_pos, rate);
            let before = c.permutations;
            let left = s.slots.clone();
            let capacity = s.capacity;
            let out = s.squeeze(&mut c, 1).unwrap();
            assert_eq!(c.permutations, before + 1);
            assert_eq!(out, vec![permuted(&left, capacity)[0]]);
            assert_eq!(s.squeeze_pos, 1);
            assert_eq!(s.absorb_pos, 0);
        }
    }
}

#[test]
fn every_absorb_between_squeezes_costs_one_permutation() {
    let mut c = tape();
    let mut s = sponge(&mut c, &[], 3);
    for round in 0..5u64 {
        s.absorb(&mut c, vec![round]).unwrap();
        assert_eq!(c.permutations, round);
        s.squeeze(&mut c, 1).unwrap();
        assert_eq!(c.permutations, round + 1);
    }
    assert_eq!(
        s.log,
        vec![
            Absorb(1), Squeeze(1), Absorb(1), Squeeze(1), Absorb(1), Squeeze(1), Absorb(1),
            Squeeze(1), Absorb(1), Squeeze(1)
        ]
    );
}

#[test]
fn squeezes_within_the_buffer_do_not_permute_again() {
    let mut c = tape();
    let mut s = sponge(&mut c, &[], 3);
    s.absorb(&mut c, vec![1]).unwrap();
    let first = s.squeeze(&mut c, 1).unwrap();
    let rest = s.squeeze(&mut c, 2).unwrap();
    assert_eq!(c.permutations, 1);
    assert_eq!(first, vec![3]);
    assert_eq!(rest, vec![1, 2]);
    assert_eq!(s.squeeze_pos, 3);
    assert_eq!(s.squeeze(&mut c, 1), Ok(vec![mix(3, 1, 0)]));
    assert_eq!(c.permutations, 2);
}

#[test]
fn squeezing_a_fresh_sponge_reads_the_slots_as_they_are() {
    let mut c = tape();
    let mut s = sponge(&mut c, &[], 2);
    assert_eq!(s.squeeze(&mut c, 2), Ok(vec![0, 0]));
    assert_eq!(c.permutations, 0);
    assert_eq!(s.squeeze_pos, 2);
}

#[test]
fn absorbing_more_than_the_rate_permutes_at_each_boundary() {
    let mut c = tape();
    let mut s = sponge(&mut c, &[], 2);
    s.absorb(&mut c, vec![1, 2, 3, 4, 5]).unwrap();
    assert_eq!(c.permutations, 2);
    assert_eq!(s.absorb_pos, 1);
    assert_eq!(s.squeeze_pos, 2);
    assert_eq!(s.log, vec![Absorb(5)]);
    // [1, 2] -> [3, 7], then [3, 4] -> [10, 14], then 5 into the first slot
    assert_eq!(s.slots, vec![5, 14]);
    assert_eq!(s.capacity, 2);
}

#[test]
fn absorbing_exactly_the_rate_does_not_permute() {
    let mut c = tape();
    let mut s = sponge(&mut c, &[], 3);
    s.absorb(&mut c, vec![7, 8, 9]).unwrap();
    assert_eq!(c.permutations, 0);
    assert_eq!(s.absorb_pos, 3);
    assert_eq!(s.slots, vec![7, 8, 9]);
    s.absorb(&mut c, vec![1]).unwrap();
    assert_eq!(c.permutations, 1);
    assert_eq!(s.absorb_pos, 1);
    assert_eq!(s.slots, vec![1, 25, 29]);
}

#[test]
fn squeezing_more_than_the_rate_permutes_at_each_boundary() {
    let mut c = tape();
    let mut s = sponge(&mut c, &[], 2);
    s.absorb(&mut c, vec![1]).unwrap();
    let out = s.squeeze(&mut c, 5).unwrap();
    assert_eq!(c.permutations, 3);
    // [1, 0] -> [3, 1] -> [10, 5] -> [32, 18]
    assert_eq!(out, vec![3, 1, 10, 5, 32]);
    assert_eq!(s.squeeze_pos, 1);
    assert_eq!(s.absorb_pos, 0);
    assert_eq!(s.log, vec![Absorb(1), Squeeze(5)]);
}

#[test]
fn absorb_after_squeeze_writes_from_the_first_slot() {
    let mut c = tape();
    let mut s = sponge(&mut c, &[], 3);
    s.absorb(&mut c, vec![1, 2]).unwrap();
    s.squeeze(&mut c, 1).unwrap();
    assert_eq!(s.slots, vec![3, 7, 2]);
    s.absorb(&mut c, vec![100]).unwrap();
    assert_eq!(c.permutations, 1);
    assert_eq!(s.slots, vec![100, 7, 2]);
    assert_eq!(s.absorb_pos, 1);
    assert_eq!(s.squeeze_pos, 3);
}

#[test]
fn one_batch_is_one_entry() {
    let mut c = tape();
    let mut s = sponge(&mut c, &[], 2);
    s.absorb(&mut c, vec![0; 5]).unwrap();
    s.squeeze(&mut c, 7).unwrap();
    s.squeeze(&mut c, 1).unwrap();
    s.absorb(&mut c, vec![]).unwrap();
    s.absorb(&mut c, vec![0]).unwrap();
    assert_eq!(s.log, vec![Absorb(5), Squeeze(7), Squeeze(1), Absorb(1)]);
}

#[test]
fn single_steps_move_the_cursors() {
    let mut c = tape();
    let mut s = sponge(&mut c, &[], 2);
    s.absorb_one(&mut c, 4);
    assert_eq!((s.absorb_pos, s.squeeze_pos), (1, 2));
    assert_eq!(s.slots, vec![4, 0]);
    assert_eq!(s.squeeze_one(&mut c), 12);
    assert_eq!((s.absorb_pos, s.squeeze_pos), (0, 1));
    assert_eq!(s.squeeze_one(&mut c), 1);
    assert_eq!((s.absorb_pos, s.squeeze_pos), (0, 2));
    assert_eq!(c.permutations, 1);
    assert_eq!(s.log, vec![]);
}

#[test]
fn different_separators_give_different_tags() {
    let mut c1 = tape();
    let mut a = sponge(&mut c1, &[1], 2);
    let mut c2 = tape();
    let mut b = sponge(&mut c2, &[2], 2);
    for s in [&mut a, &mut b] {
        let mut c = tape();
        s.absorb(&mut c, vec![10, 20, 30]).unwrap();
        s.squeeze(&mut c, 2).unwrap();
        assert_eq!(TSponge::finalize(s, &mut c), Ok(()));
    }
    assert_eq!(a.slots, b.slots);
    assert_eq!(a.capacity, 2_063_731_997_211);
    assert_eq!(b.capacity, 2_063_731_997_212);
    assert_ne!(a.capacity, b.capacity);

    let mut c = tape();
    assert_ne!(a.squeeze(&mut c, 2), b.squeeze(&mut c, 2));
}

#[test]
fn finalize_writes_the_capacity_and_nothing_else() {
    let mut c = tape();
    let mut s = sponge(&mut c, &[3, 4], 2);
    s.absorb(&mut c, vec![1]).unwrap();
    let before = (s.clone(), c.clone());
    assert_eq!(TSponge::finalize(&mut s, &mut c), Ok(()));
    assert_eq!(s.capacity, fold(&[0x8000_0001, 3, 4]));
    s.capacity = before.0.capacity;
    assert_eq!((s, c), before);
}

#[test]
fn finalize_of_a_fresh_sponge_hashes_the_separator() {
    let mut c = tape();
    let mut s = sponge(&mut c, &[3, 4], 2);
    assert_eq!(TSponge::finalize(&mut s, &mut c), Ok(()));
    assert_eq!(s.capacity, fold(&[3, 4]));
    assert_eq!(s.capacity, 7 * 31 * 31 + 3 * 31 + 4);
}

#[test]
fn finalize_again_derives_the_tag_from_the_history_as_it_is() {
    let mut c = tape();
    let mut s = sponge(&mut c, &[3], 2);
    s.absorb(&mut c, vec![1]).unwrap();
    assert_eq!(TSponge::finalize(&mut s, &mut c), Ok(()));
    let first = s.capacity;
    assert_eq!(TSponge::finalize(&mut s, &mut c), Ok(()));
    assert_eq!(s.capacity, first);
    s.squeeze(&mut c, 1).unwrap();
    assert_eq!(TSponge::finalize(&mut s, &mut c), Ok(()));
    assert_eq!(s.capacity, fold(&[0x8000_0001, 1, 3]));
}

#[test]
fn finalize_refuses_a_history_that_overflows() {
    let mut c = tape();
    let mut s = sponge(&mut c, &[3], 2);
    s.absorb(&mut c, vec![1]).unwrap();
    s.add_log(Absorb(MAX_COUNT));
    let before = (s.clone(), c.clone());
    assert_eq!(TSponge::finalize(&mut s, &mut c), Err(SpongeError::CountOverflow));
    assert_eq!((s.clone(), c.clone()), before);
    assert_eq!(s.finalize_tag(&mut c), Err(SpongeError::CountOverflow));
    assert_eq!((s, c), before);
}

#[test]
fn finalize_accepts_the_largest_total() {
    let mut c = tape();
    let mut s = sponge(&mut c, &[3], 2);
    s.absorb(&mut c, vec![1]).unwrap();
    s.add_log(Absorb(MAX_COUNT - 1));
    assert_eq!(s.finalize_tag(&mut c), Ok(()));
    assert_eq!(s.capacity, fold(&[0xffff_ffff, 3]));
}

#[test]
fn squeeze_of_too_many_is_refused() {
    let mut c = tape();
    let mut s = sponge(&mut c, &[3], 2);
    s.absorb(&mut c, vec![1]).unwrap();
    let before = (s.clone(), c.clone());
    assert_eq!(s.squeeze(&mut c, MAX_COUNT as usize + 1), Err(SpongeError::BatchTooLong));
    assert_eq!((s.clone(), c.clone()), before);
    assert_eq!(s.squeeze(&mut c, usize::MAX), Err(SpongeError::BatchTooLong));
    assert_eq!((s, c), before);
}

#[test]
fn absorb_of_too_many_is_refused() {
    let mut c = Void;
    let mut s = <Hollow as TSponge<Void>>::new(&mut c);
    s.absorb(&mut c, vec![(); 3]).unwrap();
    let before = s.clone();
    assert_eq!(s.absorb(&mut c, vec![(); MAX_COUNT as usize + 1]), Err(SpongeError::BatchTooLong));
    assert_eq!(s, before);
    assert_eq!(s.log, vec![Absorb(3)]);
}

#[test]
fn hollow_sponge_runs_the_protocol() {
    let mut c = Void;
    let mut s = <Hollow as TSponge<Void>>::new(&mut c);
    assert_eq!(s.absorb(&mut c, vec![(); 1000]), Ok(()));
    assert_eq!(s.squeeze(&mut c, 3), Ok(vec![(); 3]));
    assert_eq!(s.log, vec![Absorb(1000), Squeeze(3)]);
    assert_eq!(TSponge::finalize(&mut s, &mut c), Ok(()));
    assert!(s.tagged);
}

#[test]
fn circuit_offers_the_protocol_of_its_sponge() {
    let mut c = tape();
    let mut s = <Tape as Poseidon<Binding>>::new(&mut c);
    assert_eq!(s.rate, 2);
    assert_eq!(s.separator, vec![SEPARATOR]);
    assert_eq!(Poseidon::<Binding>::absorb(&mut c, &mut s, vec![10, 20, 30]), Ok(()));
    assert_eq!(c.permutations, 1);
    assert_eq!(Poseidon::<Binding>::squeeze(&mut c, &mut s, 2), Ok(vec![91, 185]));
    assert_eq!(c.permutations, 2);
    assert_eq!(Poseidon::<Binding>::finalize(&mut c, &mut s), Ok(()));
    assert_eq!(s.capacity, 2_065_129_769_320);
    assert_eq!(s.log, vec![Absorb(3), Squeeze(2)]);
}

#[test]
fn circuit_passes_refusals_on() {
    let mut c = tape();
    let mut s = <Tape as Poseidon<Binding>>::new(&mut c);
    assert_eq!(
        Poseidon::<Binding>::squeeze(&mut c, &mut s, MAX_COUNT as usize + 1),
        Err(SpongeError::BatchTooLong)
    );
    s.add_log(Squeeze(MAX_COUNT));
    s.add_log(Squeeze(1));
    assert_eq!(Poseidon::<Binding>::finalize(&mut c, &mut s), Err(SpongeError::CountOverflow));
    assert_eq!(Poseidon::<Binding>::absorb(&mut c, &mut s, vec![]), Ok(()));
    assert_eq!(Poseidon::<Binding>::squeeze(&mut c, &mut s, 0), Ok(vec![]));
    assert_eq!(c.permutations, 0);
}
