//! The trusted boundary around `fixedbitset`: the bit-packed cell storage
//! is a `fixedbitset::FixedBitSet`, and these wrappers state what its
//! operations do to the sequence of bits it holds.
use vstd::prelude::*;
use fixedbitset::FixedBitSet;

verus! {

#[verifier::external_type_specification]
#[verifier::external_body]
pub struct ExFixedBitSet(FixedBitSet);

/// The sequence of booleans a `FixedBitSet` holds, in bit order.
pub uninterp spec fn bits_of(s: FixedBitSet) -> Seq<bool>;

/// Relies on fixedbitset::FixedBitSet::with_capacity: a fresh set of `len`
/// bits, all zero.
#[verifier::external_body]
pub(crate) fn bits_new(len: usize) -> (r: FixedBitSet)
    ensures
        bits_of(r).len() == len,
        forall|i: int| 0 <= i < len ==> !bits_of(r)[i],
{
    FixedBitSet::with_capacity(len)
}

/// Relies on fixedbitset::FixedBitSet::contains: whether bit `i` is set.
#[verifier::external_body]
pub(crate) fn bits_get(s: &FixedBitSet, i: usize) -> (r: bool)
    requires
        i < bits_of(*s).len(),
    ensures
        r == bits_of(*s)[i as int],
{
    s.contains(i)
}

/// Relies on fixedbitset::FixedBitSet::set: puts bit `i` to `v` and leaves
/// every other bit as it was; it panics only above the length, which the
/// precondition rules out.
#[verifier::external_body]
pub(crate) fn bits_set(s: &mut FixedBitSet, i: usize, v: bool)
    requires
        i < bits_of(*old(s)).len(),
    ensures
        bits_of(*final(s)) == bits_of(*old(s)).update(i as int, v),
{
    s.set(i, v);
}

/// Relies on fixedbitset::FixedBitSet::toggle: flips bit `i` and leaves
/// every other bit as it was; it panics only above the length, which the
/// precondition rules out.
#[verifier::external_body]
pub(crate) fn bits_toggle(s: &mut FixedBitSet, i: usize)
    requires
        i < bits_of(*old(s)).len(),
    ensures
        bits_of(*final(s)) == bits_of(*old(s)).update(i as int, !bits_of(*old(s))[i as int]),
{
    s.toggle(i);
}

} // verus!
