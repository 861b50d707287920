//! The seeded random initial population.
//!
//! A cooperator frequency is a number between 0.0 and 1.0. It is carried as
//! the bit pattern of an IEEE-754 double, so that a caller who works in
//! floating point hands it over and gets it back without loss, while every
//! decision taken on it here is taken over integers.

use vstd::prelude::*;
use vstd::arithmetic::power2::{
    lemma2_to64,
    lemma2_to64_rest,
    lemma_pow2_adds,
    lemma_pow2_pos,
    lemma_pow2_strictly_increases,
    pow2,
};
use vstd::bits::lemma_u64_mul_pow2_le_max_iff_max_shr;
use crate::cell::Cell;
use crate::error::InvalidConfiguration;

verus! {

/// The bit pattern of the double 1.0.
pub const ONE_BITS: u64 = 0x3FF0_0000_0000_0000;

/// The bit pattern of the double -0.0, which compares equal to 0.0.
pub const NEGATIVE_ZERO_BITS: u64 = 0x8000_0000_0000_0000;

/// Whether `bits` is the pattern of a double `f` with `0.0 <= f <= 1.0`.
///
/// Doubles that are not negative are ordered as their bit patterns are, so
/// these are the patterns up to that of 1.0, and that of -0.0. Every pattern
/// of a NaN, of an infinity or of a number below zero is left out.
pub open spec fn in_unit_interval(bits: u64) -> bool {
    bits <= ONE_BITS || bits == NEGATIVE_ZERO_BITS
}

/// The exponent field of a double: the eleven bits below the sign bit.
pub open spec fn exponent_field(bits: u64) -> nat {
    ((bits as nat) / 0x10_0000_0000_0000) % 0x800
}

/// The fraction field of a double: its low 52 bits.
pub open spec fn fraction_field(bits: u64) -> nat {
    (bits as nat) % 0x10_0000_0000_0000
}

/// The integer significand of a double: the fraction field, with the
/// implicit leading bit unless the number is subnormal.
pub open spec fn significand(bits: u64) -> nat {
    if exponent_field(bits) == 0 {
        fraction_field(bits)
    } else {
        0x10_0000_0000_0000 + fraction_field(bits)
    }
}

/// The power of two that the significand of a double is scaled by, counted
/// from the smallest one: 1 for subnormal numbers.
pub open spec fn binade(bits: u64) -> nat {
    if exponent_field(bits) == 0 {
        1
    } else {
        exponent_field(bits)
    }
}

/// The magnitude of the double with pattern `bits`, multiplied by 2^1075.
/// This is an integer for every finite double.
pub open spec fn scaled_magnitude(bits: u64) -> nat {
    significand(bits) * pow2(binade(bits))
}

/// The 53-bit fraction that a random word stands for: its top 53 bits, read
/// as a multiple of 2^-53 in `[0, 1)`.
pub open spec fn unit_fraction(word: u64) -> nat {
    (word as nat) / 0x800
}

/// Whether a site whose random word is `word` starts as a cooperator, given
/// the pattern `bits` of the cooperator frequency: whether the fraction that
/// the word stands for is strictly below the frequency. Both sides of the
/// comparison are multiplied by 2^1075.
pub open spec fn draws_cooperator(bits: u64, word: u64) -> bool {
    unit_fraction(word) * pow2(1022) < scaled_magnitude(bits)
}

/// How a random initial population is drawn.
#[derive(Debug, Clone, Copy, PartialEq, Eq, Structural)]
pub struct RngSettings {
    /// The seed of the generator.
    pub seed: u64,
    /// The probability that a site starts as a cooperator, as the bit
    /// pattern of a double.
    pub cooperator_frequency: u64,
}

impl RngSettings {
    /// The frequency lies between 0.0 and 1.0.
    pub open spec fn well_formed(&self) -> bool {
        in_unit_interval(self.cooperator_frequency)
    }

    /// The settings with the given seed and frequency. Without a seed, one
    /// is drawn from the thread's generator. A frequency outside of 0.0 to
    /// 1.0 is turned down.
    pub fn new(seed: Option<u64>, cooperator_frequency: u64) -> (settings: Result<
        RngSettings,
        InvalidConfiguration,
    >)
        ensures
            settings is Ok <==> in_unit_interval(cooperator_frequency),
            settings is Err ==> settings == Err::<RngSettings, InvalidConfiguration>(
                InvalidConfiguration::CooperatorFrequency,
            ),
            settings matches Ok(s) ==> {
                &&& s.well_formed()
                &&& s.cooperator_frequency == cooperator_frequency
                &&& (seed matches Some(given) ==> s.seed == given)
            },
    {
        if !RngSettings::accepts_frequency(cooperator_frequency) {
            return Err(InvalidConfiguration::CooperatorFrequency);
        }
        let seed: u64 = match seed {
            Some(given) => given,
            None => entropy_seed(),
        };
        Ok(RngSettings { seed, cooperator_frequency })
    }

    /// Whether `bits` is the pattern of a double between 0.0 and 1.0.
    pub fn accepts_frequency(bits: u64) -> (accepted: bool)
        ensures
            accepted == in_unit_interval(bits),
    {
        bits <= ONE_BITS || bits == NEGATIVE_ZERO_BITS
    }

    /// The population that the settings make of the given random words:
    /// one fresh cell for each word, in order, a cooperator where the
    /// frequency says so.
    pub open spec fn population_from(&self, words: Seq<u64>) -> Seq<Cell> {
        Seq::new(
            words.len(),
            |i: int| Cell::fresh(draws_cooperator(self.cooperator_frequency, words[i])),
        )
    }

    /// The population drawn under the settings for a lattice of `sites`
    /// sites: what the settings make of the first `sites` words of the
    /// seed.
    pub open spec fn population(&self, sites: nat) -> Seq<Cell> {
        self.population_from(seeded_words(self.seed, sites))
    }

    /// The population that the settings make of the given random words.
    pub fn populate(&self, words: &Vec<u64>) -> (cells: Vec<Cell>)
        requires
            self.well_formed(),
        ensures
            cells@ == self.population_from(words@),
    {
        let mut cells: Vec<Cell> = Vec::new();
        let mut i: usize = 0;
        while i < words.len()
            invariant
                i <= words.len(),
                self.well_formed(),
                cells@.len() == i,
                forall|j: int|
                    0 <= j < i ==> cells@[j] == Cell::fresh(
                        draws_cooperator(self.cooperator_frequency, words@[j]),
                    ),
            decreases words.len() - i,
        {
            cells.push(Cell::new(self.starts_as_cooperator(words[i])));
            i += 1;
        }
        assert(cells@ =~= self.population_from(words@));
        cells
    }

    /// Whether a site whose random word is `word` starts as a cooperator.
    pub fn starts_as_cooperator(&self, word: u64) -> (cooperator: bool)
        requires
            self.well_formed(),
        ensures
            cooperator == draws_cooperator(self.cooperator_frequency, word),
    {
        let bits: u64 = self.cooperator_frequency;
        let fraction: u64 = word >> 11;
        let exponent: u64 = (bits >> 52) & 0x7FF;
        let low: u64 = bits & 0xF_FFFF_FFFF_FFFF;
        proof {
            assert(word >> 11 == word / 0x800) by (bit_vector);
            assert((bits >> 52) & 0x7FF == (bits / 0x10_0000_0000_0000) % 0x800) by (bit_vector);
            assert(bits & 0xF_FFFF_FFFF_FFFF == bits % 0x10_0000_0000_0000) by (bit_vector);
            assert(fraction == unit_fraction(word));
            assert(exponent == exponent_field(bits));
            assert(low == fraction_field(bits));
            lemma_pow2_pos(1022);
        }
        if exponent >= 1023 {
            proof {
                assert(bits == ONE_BITS);
                assert(pow2(1023) == 2 * pow2(1022)) by {
                    lemma_pow2_adds(1, 1022);
                    lemma2_to64();
                }
                let unit = pow2(1022) as int;
                assert(fraction * unit < 0x10_0000_0000_0000 * (2 * unit)) by (nonlinear_arith)
                    requires
                        0 <= fraction < 0x20_0000_0000_0000,
                        unit > 0,
                ;
            }
            return true;
        }
        let mantissa: u64 = if exponent == 0 {
            low
        } else {
            low + 0x10_0000_0000_0000
        };
        let scale: u64 = if exponent == 0 {
            1
        } else {
            exponent
        };
        let shift: u64 = 1022 - scale;
        proof {
            assert(mantissa == significand(bits));
            assert(scale == binade(bits));
            lemma_pow2_adds(shift as nat, scale as nat);
            lemma_pow2_pos(shift as nat);
            lemma_pow2_pos(scale as nat);
            let step = pow2(shift as nat) as int;
            let unit = pow2(scale as nat) as int;
            assert(pow2(1022) == step * unit);
            assert((fraction * (step * unit) < mantissa * unit) <==> (fraction * step < mantissa))
                by (nonlinear_arith)
                requires
                    unit > 0,
            ;
        }
        if mantissa == 0 {
            proof {
                assert(fraction * pow2(shift as nat) >= 0) by (nonlinear_arith)
                    requires
                        fraction >= 0,
                        pow2(shift as nat) >= 0,
                ;
            }
            false
        } else if shift >= 64 {
            proof {
                lemma2_to64_rest();
                lemma_pow2_strictly_increases(53, shift as nat);
                let step = pow2(shift as nat) as int;
                assert(fraction >= 1 ==> fraction * step > mantissa) by (nonlinear_arith)
                    requires
                        step > 0x20_0000_0000_0000,
                        mantissa < 0x20_0000_0000_0000,
                ;
                assert(fraction == 0 ==> fraction * step == 0) by (nonlinear_arith);
            }
            fraction == 0
        } else {
            proof {
                lemma_u64_mul_pow2_le_max_iff_max_shr(fraction, shift, (mantissa - 1) as u64);
            }
            fraction <= ((mantissa - 1) >> shift)
        }
    }
}

/// The first `count` words of `rand`'s standard generator when it is started
/// from `seed`. The generator is deterministic, so the words are a function
/// of the seed and the count; how they are computed is `rand`'s matter.
pub uninterp spec fn seeded_words(seed: u64, count: nat) -> Seq<u64>;

/// The next `count` words that the generator gives, in order. A word is
/// computed from the state of the generator alone, so these are a function
/// of the generator and the count.
pub uninterp spec fn words_ahead(generator: rand::rngs::StdRng, count: nat) -> Seq<u64>;

#[verifier::external_type_specification]
#[verifier::external_body]
pub struct ExStdRng(rand::rngs::StdRng);

/// A seed from the generator that `rand` keeps for the calling thread:
/// `rand::rngs::ThreadRng::default()` and one call of `gen` on it. Nothing
/// is claimed of the number that comes back. The call gives up only where
/// the system has no entropy to start that generator from.
#[verifier::external_body]
fn entropy_seed() -> (seed: u64) {
    rand::Rng::gen::<u64>(&mut rand::rngs::ThreadRng::default())
}

/// `rand`'s standard generator, started from `seed` by
/// `SeedableRng::seed_from_u64`. The claim is that the words it has ahead
/// are the words of that seed, as many as are asked for.
#[verifier::external_body]
fn seeded_generator(seed: u64) -> (generator: rand::rngs::StdRng)
    ensures
        forall|count: nat| #[trigger]
            words_ahead(generator, count) == seeded_words(seed, count),
        forall|count: nat| #[trigger] words_ahead(generator, count).len() == count,
{
    rand::SeedableRng::seed_from_u64(seed)
}

/// The next word of the generator, by `RngCore::next_u64`. The claim is that
/// it is the first of the words that the generator had ahead, and that the
/// generator then has the others ahead.
#[verifier::external_body]
fn next_word(generator: &mut rand::rngs::StdRng) -> (word: u64)
    ensures
        forall|count: nat|
            words_ahead(*old(generator), count + 1) == seq![word] + #[trigger] words_ahead(
                *final(generator),
                count,
            ),
{
    rand::RngCore::next_u64(generator)
}

/// The first `count` words of the generator of `seed`.
pub(crate) fn draw_words(seed: u64, count: usize) -> (words: Vec<u64>)
    ensures
        words@ == seeded_words(seed, count as nat),
        words@.len() == count,
{
    let mut generator = seeded_generator(seed);
    let mut words: Vec<u64> = Vec::new();
    let mut i: usize = 0;
    assert(words@ + words_ahead(generator, count as nat) =~= seeded_words(seed, count as nat));
    while i < count
        invariant
            i <= count,
            words@.len() == i,
            words_ahead(generator, (count - i) as nat).len() == count - i,
            words@ + words_ahead(generator, (count - i) as nat) == seeded_words(
                seed,
                count as nat,
            ),
        decreases count - i,
    {
        let ghost before = generator;
        let ghost so_far = words@;
        let word: u64 = next_word(&mut generator);
        words.push(word);
        proof {
            let left = (count - i - 1) as nat;
            let ahead = words_ahead(generator, left);
            assert(words_ahead(before, left + 1) == seq![word] + ahead);
            assert(words_ahead(before, (count - i) as nat) == seq![word] + ahead);
            assert(words@ + ahead =~= so_far + (seq![word] + ahead));
        }
        i += 1;
    }
    assert(words@ + words_ahead(generator, 0) =~= words@);
    words
}

} // verus!
