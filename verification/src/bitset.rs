use vstd::prelude::*;

use bit_set::BitSet;

verus! {

/// `bit_set::BitSet`, carried through verified code as an opaque value.
#[verifier::external_type_specification]
#[verifier::external_body]
#[verifier::reject_recursive_types(B)]
pub struct ExBitSet<B>(bit_set::BitSet<B>);

/// The bit vector behind a `BitSet`: its length is the length of the set's
/// underlying `BitVec`, and bit `i` is set iff `i` is in the set.
pub uninterp spec fn bit_set_bits(s: BitSet) -> Seq<bool>;

/// Calls `BitSet::with_capacity`: a set over `nbits` cleared bits.
#[verifier::external_body]
pub(crate) fn bit_set_with_capacity(nbits: usize) -> (s: BitSet)
    ensures
        bit_set_bits(s) == Seq::new(nbits as nat, |i: int| false),
{
    BitSet::with_capacity(nbits)
}

/// Calls `BitSet::insert`: sets bit `value`, first growing the bit vector
/// with cleared bits up to `value` where it is shorter; returns whether the
/// bit was clear before. `usize::MAX` is left out: growing to it overflows.
#[verifier::external_body]
pub(crate) fn bit_set_insert(s: &mut BitSet, value: usize) -> (r: bool)
    requires
        value < usize::MAX,
    ensures
        r == !(value < bit_set_bits(*old(s)).len() && bit_set_bits(*old(s))[value as int]),
        value < bit_set_bits(*old(s)).len() ==> bit_set_bits(*final(s)) == bit_set_bits(
            *old(s),
        ).update(value as int, true),
        value >= bit_set_bits(*old(s)).len() ==> bit_set_bits(*final(s)) == bit_set_bits(*old(s))
            + Seq::new((value - bit_set_bits(*old(s)).len()) as nat, |i: int| false) + seq![true],
{
    s.insert(value)
}

/// Calls `BitSet::contains`: whether bit `value` is set.
#[verifier::external_body]
pub(crate) fn bit_set_contains(s: &BitSet, value: usize) -> (r: bool)
    ensures
        r == (value < bit_set_bits(*s).len() && bit_set_bits(*s)[value as int]),
{
    s.contains(value)
}

/// Calls `BitSet::get_ref` and `BitVec::len`: the length of the bit vector.
#[verifier::external_body]
pub(crate) fn bit_set_bit_len(s: &BitSet) -> (r: usize)
    ensures
        r == bit_set_bits(*s).len(),
{
    s.get_ref().len()
}

} // verus!
