//! States: sparse sets of entity identifiers.

use bit_set::BitSet;
use vstd::prelude::*;

verus! {

/// A bit set of the `bit_set` crate, taken as an opaque collection.
#[verifier::external_body]
#[derive(PartialEq, Eq, PartialOrd, Ord, Debug)]
pub struct Bits {
    set: BitSet<u32>,
}

/// The numbers that a bit set holds.
pub uninterp spec fn bits(set: Bits) -> Set<usize>;

/// `BitSet::new`: a bit set that holds no number.
#[verifier::external_body]
fn bit_set_new() -> (set: Bits)
    ensures
        bits(set) == Set::<usize>::empty(),
{
    Bits { set: BitSet::new() }
}

/// `BitSet::insert`: the number is added to the set, whose other elements
/// stay, and the result tells whether it was absent before.  The crate grows
/// its storage to `value + 1` bits, which does not exist for the largest
/// `usize`.
#[verifier::external_body]
fn bit_set_insert(set: &mut Bits, value: usize) -> (fresh: bool)
    requires
        value < usize::MAX,
    ensures
        bits(*final(set)) == bits(*old(set)).insert(value),
        fresh == !bits(*old(set)).contains(value),
{
    set.set.insert(value)
}

/// `BitSet::contains`: whether the set holds the number.
#[verifier::external_body]
fn bit_set_contains(set: &Bits, value: usize) -> (found: bool)
    ensures
        found == bits(*set).contains(value),
{
    set.set.contains(value)
}

/// `BitSet::clone`: a bit set that holds the same numbers.
#[verifier::external_body]
fn bit_set_clone(set: &Bits) -> (copy: Bits)
    ensures
        bits(copy) == bits(*set),
{
    Bits { set: set.set.clone() }
}

/// A set of entity identifiers.  It attaches no meaning to its elements
/// beyond membership.
#[derive(PartialEq, Eq, PartialOrd, Ord, Debug)]
pub struct State(Bits);

impl View for State {
    type V = Set<usize>;

    closed spec fn view(&self) -> Set<usize> {
        bits(self.0)
    }
}

impl Default for State {
    fn default() -> (state: State)
        ensures
            state@ == Set::<usize>::empty(),
    {
        State::new()
    }
}

impl Clone for State {
    #[inline]
    fn clone(&self) -> (copy: State)
        ensures
            copy@ == self@,
    {
        State(bit_set_clone(&self.0))
    }
}

impl State {
    /// The state without identifiers.
    #[inline]
    pub fn new() -> (state: State)
        ensures
            state@ == Set::<usize>::empty(),
    {
        State(bit_set_new())
    }

    /// Adds an identifier.  The largest `usize` is no identifier: the set
    /// cannot hold it.
    pub fn insert(&mut self, elt: usize)
        requires
            elt < usize::MAX,
        ensures
            final(self)@ == old(self)@.insert(elt),
    {
        let _ = bit_set_insert(&mut self.0, elt);
    }

    /// Whether the state holds an identifier.
    pub fn contains(&self, elt: usize) -> (found: bool)
        ensures
            found == self@.contains(elt),
    {
        bit_set_contains(&self.0, elt)
    }
}

} // verus!
