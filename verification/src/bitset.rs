//! What this crate takes for granted about `fixedbitset::FixedBitSet`.
//!
//! Nothing in this module is proved. Each contract restates, over the
//! sequence of bits that a set holds, what the bit set's own code does.

use fixedbitset::FixedBitSet;
use vstd::prelude::*;

verus! {

#[verifier::external_type_specification]
#[verifier::external_body]
pub struct ExFixedBitSet(FixedBitSet);

/// The bits of a `FixedBitSet` in index order. Its length is the length of
/// the set in bits, enabled or not.
pub uninterp spec fn bit_view(s: FixedBitSet) -> Seq<bool>;

/// Whether bit `k` of a storage block is one, counting from the least
/// significant bit.
pub open spec fn block_bit(block: u32, k: int) -> bool {
    (block >> (k as u32)) & 1u32 == 1u32
}

/// `FixedBitSet::with_capacity` makes a set of `bits` bits, all disabled.
pub assume_specification[ FixedBitSet::with_capacity ](bits: usize) -> (s: FixedBitSet)
    ensures
        bit_view(s) == Seq::new(bits as nat, |i: int| false),
;

/// `FixedBitSet::set` writes one bit and leaves the others and the length
/// alone. It panics on an index past the end, which `requires` rules out.
pub assume_specification[ FixedBitSet::set ](s: &mut FixedBitSet, bit: usize, enabled: bool)
    requires
        bit < bit_view(*old(s)).len(),
    ensures
        bit_view(*final(s)) == bit_view(*old(s)).update(bit as int, enabled),
;

/// `FixedBitSet::toggle` inverts one bit and leaves the others and the
/// length alone. It panics on an index past the end, which `requires` rules
/// out.
pub assume_specification[ FixedBitSet::toggle ](s: &mut FixedBitSet, bit: usize)
    requires
        bit < bit_view(*old(s)).len(),
    ensures
        bit_view(*final(s)) == bit_view(*old(s)).update(bit as int, !bit_view(*old(s))[bit as int]),
;

/// `FixedBitSet::as_slice` hands out the storage: 32-bit blocks, as many as
/// the length needs, bit `i` of the set being bit `i % 32` of block `i / 32`.
/// Nothing is said of the unused high bits of the last block.
pub assume_specification[ FixedBitSet::as_slice ](s: &FixedBitSet) -> (blocks: &[u32])
    ensures
        blocks@.len() == (bit_view(*s).len() + 31) / 32,
        forall|i: int|
            0 <= i < bit_view(*s).len() ==> block_bit(blocks@[i / 32], i % 32) == #[trigger] bit_view(
                *s,
            )[i],
;

/// `FixedBitSet`'s `Clone` copies the bits and the length.
pub assume_specification[ <FixedBitSet as Clone>::clone ](s: &FixedBitSet) -> (copy: FixedBitSet)
    ensures
        bit_view(copy) == bit_view(*s),
;

/// `FixedBitSet`'s index operator reads one bit. Only indices inside the set
/// are specified.
#[verifier::external_body]
pub(crate) fn bit_at(s: &FixedBitSet, bit: usize) -> (enabled: bool)
    ensures
        bit < bit_view(*s).len() ==> enabled == bit_view(*s)[bit as int],
{
    s[bit]
}

} // verus!
