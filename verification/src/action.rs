//! Entries of a sponge's call history and their one-word encoding.
//!
//! An entry is a direction and a count. It is encoded in one 32-bit word: the top
//! bit is the direction, the low 31 bits are the count. A count therefore has to
//! stay at or below [`MAX_COUNT`] for the encoding to keep it.

use vstd::prelude::*;

verus! {

/// The direction flag of an encoded entry: the top bit of the word.
pub const DIRECTION_BIT: u32 = 0x8000_0000u32;

/// The largest count that an encoded entry can carry: 31 bits, all set.
pub const MAX_COUNT: u32 = 0x7fff_ffffu32;

/// One batch operation on a sponge: its direction and the number of elements
/// that the call asked for.
#[derive(Clone, Copy, Debug, PartialEq, Eq, Structural)]
pub enum SpongeAction {
    Absorb(u32),
    Squeeze(u32),
}

impl SpongeAction {
    /// Whether the entry is an absorb.
    pub open spec fn is_absorb(self) -> bool {
        self is Absorb
    }

    /// The number of elements of the batch.
    pub open spec fn count(self) -> u32 {
        match self {
            SpongeAction::Absorb(v) => v,
            SpongeAction::Squeeze(v) => v,
        }
    }

    /// The word that stands for the entry: the count, with the top bit set for
    /// an absorb and left as it is for a squeeze.
    pub open spec fn word(self) -> u32 {
        match self {
            SpongeAction::Absorb(v) => v | DIRECTION_BIT,
            SpongeAction::Squeeze(v) => v,
        }
    }

    /// The entry that a word stands for: the top bit gives the direction, the low
    /// 31 bits give the count.
    pub open spec fn decode(w: u32) -> SpongeAction {
        if w & DIRECTION_BIT != 0 {
            SpongeAction::Absorb(w & MAX_COUNT)
        } else {
            SpongeAction::Squeeze(w & MAX_COUNT)
        }
    }

    /// Encodes the entry in one word.
    pub fn serialize(self) -> (w: u32)
        ensures
            w == self.word(),
    {
        match self {
            SpongeAction::Absorb(v) => v | DIRECTION_BIT,
            SpongeAction::Squeeze(v) => v,
        }
    }

    /// The encoded word read as a number: for a count that fits in 31 bits, an
    /// absorb is the count plus 2^31 and a squeeze is the count itself.
    pub proof fn lemma_word_value(self)
        requires
            self.count() <= MAX_COUNT,
        ensures
            self.is_absorb() ==> self.word() == self.count() + 0x8000_0000,
            !self.is_absorb() ==> self.word() == self.count(),
    {
        let v = self.count();
        assert(v <= 0x7fff_ffffu32 ==> (v | 0x8000_0000u32) == v + 0x8000_0000) by (bit_vector);
    }

    /// Decoding an encoded entry gives the entry back, direction and count, for
    /// every count that fits in 31 bits.
    pub proof fn lemma_decode_word(self)
        requires
            self.count() <= MAX_COUNT,
        ensures
            Self::decode(self.word()) == self,
    {
        let v = self.count();
        assert(v <= 0x7fff_ffffu32 ==> (v | 0x8000_0000u32) & 0x8000_0000u32 != 0 && ((v
            | 0x8000_0000u32) & 0x7fff_ffffu32) == v) by (bit_vector);
        assert(v <= 0x7fff_ffffu32 ==> v & 0x8000_0000u32 == 0 && (v & 0x7fff_ffffu32) == v)
            by (bit_vector);
    }

    /// Two entries whose counts fit in 31 bits and whose words are equal are the
    /// same entry.
    pub proof fn lemma_word_injective(self, other: SpongeAction)
        requires
            self.count() <= MAX_COUNT,
            other.count() <= MAX_COUNT,
            self.word() == other.word(),
        ensures
            self == other,
    {
        self.lemma_decode_word();
        other.lemma_decode_word();
    }
}

} // verus!
