//! What the fingerprint of a lattice is made from.

use vstd::prelude::*;
use crate::cell::Cell;

verus! {

/// The two-bit tag of a cell: which of the four variants it is. The fitness
/// has no part in it.
pub open spec fn strategy_tag(cell: Cell) -> u8 {
    match cell {
        Cell::CC(_) => 0u8,
        Cell::CD(_) => 1u8,
        Cell::DD(_) => 2u8,
        Cell::DC(_) => 3u8,
    }
}

/// The two-bit tag of a cell.
pub fn tag_of(cell: &Cell) -> (tag: u8)
    ensures
        tag == strategy_tag(*cell),
        tag < 4,
{
    match cell {
        Cell::CC(_) => 0b00,
        Cell::CD(_) => 0b01,
        Cell::DD(_) => 0b10,
        Cell::DC(_) => 0b11,
    }
}

/// The tag tells the two strategies of a cell, and nothing else.
pub proof fn lemma_tag_reads_strategies(a: Cell, b: Cell)
    ensures
        strategy_tag(a) == strategy_tag(b) <==> (a.was_cooperator() == b.was_cooperator()
            && a.is_cooperator() == b.is_cooperator()),
{
}

#[verifier::external_type_specification]
#[verifier::external_body]
pub struct ExAHasher(ahash::AHasher);

/// The digest that the hasher gives once it has been fed the bytes of
/// `rest`, one by one, on top of what it has been fed so far. Feeding a byte
/// and taking the digest read nothing but the hasher itself, so this is a
/// function of the hasher and the bytes; how it is computed is `ahash`'s
/// matter. Nothing is said here of how two hashers relate.
pub uninterp spec fn digest_after(hasher: ahash::AHasher, rest: Seq<u8>) -> u64;

/// A hasher from `ahash::AHasher::default()`. Its keys are drawn at the
/// first call in a process, so nothing is claimed of it. The call gives up
/// only where the system has no entropy to draw the keys from.
#[verifier::external_body]
pub(crate) fn new_hasher() -> (hasher: ahash::AHasher) {
    ahash::AHasher::default()
}

/// Feeds one byte to the hasher, by `Hasher::write_u8`. The claim is that
/// the hasher then gives, after any further bytes, the digest that it would
/// have given before after this byte and those.
#[verifier::external_body]
pub(crate) fn absorb(hasher: &mut ahash::AHasher, byte: u8)
    ensures
        forall|rest: Seq<u8>| #[trigger]
            digest_after(*final(hasher), rest) == digest_after(*old(hasher), seq![byte] + rest),
{
    std::hash::Hasher::write_u8(hasher, byte)
}

/// The digest of what the hasher was fed, by `Hasher::finish`: the digest
/// that it gives after no further byte.
#[verifier::external_body]
pub(crate) fn finish(hasher: &ahash::AHasher) -> (digest: u64)
    ensures
        digest == digest_after(*hasher, Seq::<u8>::empty()),
{
    std::hash::Hasher::finish(hasher)
}

} // verus!
