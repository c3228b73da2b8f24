//! Small sets of integers below 64, as used for the fields of a cron expression.

use vstd::prelude::*;

verus! {

/// A set of integers in `0..64`, one bit for each.
#[derive(Clone, Copy, Debug, PartialEq, Eq)]
pub struct FieldSet {
    pub bits: u64,
}

/// Bit `v` of `bits` is set.
pub open spec fn bit_is_set(bits: u64, v: int) -> bool {
    0 <= v < 64 && (bits >> (v as u64)) & 1 == 1
}

/// The values `first`, `first + step`, `first + 2 * step`, ... that do not exceed `last`.
pub open spec fn stepped_range(first: int, last: int, step: int) -> Set<int>
    decreases
        if first <= last {
            last - first + 1
        } else {
            0
        },
{
    if first <= last && step >= 1 {
        stepped_range(first + step, last, step).insert(first)
    } else {
        Set::empty()
    }
}

/// The stepped range holds the values from `first` to `last` whose distance from `first`
/// is a multiple of the step.
pub proof fn lemma_stepped_range(first: int, last: int, step: int, v: int)
    requires
        step >= 1,
    ensures
        stepped_range(first, last, step).contains(v) == (first <= v <= last && (v - first) % step
            == 0),
    decreases
        if first <= last {
            last - first + 1
        } else {
            0
        },
{
    if first <= last {
        lemma_stepped_range(first + step, last, step, v);
        let x = v - first;
        if x == 0 {
            vstd::arithmetic::div_mod::lemma_small_mod(0, step as nat);
        } else if 0 < x < step {
            vstd::arithmetic::div_mod::lemma_small_mod(x as nat, step as nat);
        } else if x >= step {
            vstd::arithmetic::div_mod::lemma_mod_sub_multiples_vanish(x, step);
            assert((v - (first + step)) % step == x % step);
        }
    }
}

proof fn lemma_bit_insert(bits: u64, i: u64, j: u64)
    requires
        i < 64,
        j < 64,
    ensures
        ((bits | (1u64 << i)) >> j) & 1 == (if i == j {
            1u64
        } else {
            (bits >> j) & 1
        }),
{
    assert(((bits | (1u64 << i)) >> j) & 1 == (if i == j {
        1u64
    } else {
        (bits >> j) & 1
    })) by (bit_vector)
        requires
            i < 64,
            j < 64,
    ;
}

proof fn lemma_bit_union(a: u64, b: u64, j: u64)
    requires
        j < 64,
    ensures
        (((a | b) >> j) & 1 == 1) == (((a >> j) & 1 == 1) || ((b >> j) & 1 == 1)),
{
    assert((((a | b) >> j) & 1 == 1) == (((a >> j) & 1 == 1) || ((b >> j) & 1 == 1)))
        by (bit_vector)
        requires
            j < 64,
    ;
}

proof fn lemma_bit_intersect(a: u64, b: u64, j: u64)
    requires
        j < 64,
    ensures
        (((a & b) >> j) & 1 == 1) == (((a >> j) & 1 == 1) && ((b >> j) & 1 == 1)),
{
    assert((((a & b) >> j) & 1 == 1) == (((a >> j) & 1 == 1) && ((b >> j) & 1 == 1)))
        by (bit_vector)
        requires
            j < 64,
    ;
}

proof fn lemma_bit_empty(j: u64)
    requires
        j < 64,
    ensures
        (0u64 >> j) & 1 == 0,
{
    assert((0u64 >> j) & 1 == 0) by (bit_vector)
        requires
            j < 64,
    ;
}

impl View for FieldSet {
    type V = Set<int>;

    open spec fn view(&self) -> Set<int> {
        Set::new(|v: int| bit_is_set(self.bits, v))
    }
}

impl FieldSet {
    /// The set without values.
    pub fn empty() -> (r: FieldSet)
        ensures
            r@ == Set::<int>::empty(),
    {
        let r = FieldSet { bits: 0 };
        proof {
            assert forall|v: int| !r@.contains(v) by {
                if 0 <= v < 64 {
                    lemma_bit_empty(v as u64);
                }
            }
            assert(r@ =~= Set::<int>::empty());
        }
        r
    }

    /// Whether `v` is in the set.
    pub fn has(&self, v: u64) -> (r: bool)
        ensures
            r == self@.contains(v as int),
    {
        v < 64 && (self.bits >> v) & 1 == 1
    }

    /// This set with `v` added.
    pub fn with(&self, v: u64) -> (r: FieldSet)
        requires
            v < 64,
        ensures
            r@ == self@.insert(v as int),
    {
        let r = FieldSet { bits: self.bits | (1u64 << v) };
        proof {
            assert forall|w: int| r@.contains(w) == self@.insert(v as int).contains(w) by {
                if 0 <= w < 64 {
                    lemma_bit_insert(self.bits, v, w as u64);
                }
            }
            assert(r@ =~= self@.insert(v as int));
        }
        r
    }

    /// The values that are in this set or in `other`.
    pub fn union(&self, other: &FieldSet) -> (r: FieldSet)
        ensures
            r@ == self@.union(other@),
    {
        let r = FieldSet { bits: self.bits | other.bits };
        proof {
            assert forall|w: int| r@.contains(w) == self@.union(other@).contains(w) by {
                if 0 <= w < 64 {
                    lemma_bit_union(self.bits, other.bits, w as u64);
                }
            }
            assert(r@ =~= self@.union(other@));
        }
        r
    }

    /// The values that are in this set and in `other`.
    pub fn intersect(&self, other: &FieldSet) -> (r: FieldSet)
        ensures
            r@ == self@.intersect(other@),
    {
        let r = FieldSet { bits: self.bits & other.bits };
        proof {
            assert forall|w: int| r@.contains(w) == self@.intersect(other@).contains(w) by {
                if 0 <= w < 64 {
                    lemma_bit_intersect(self.bits, other.bits, w as u64);
                }
            }
            assert(r@ =~= self@.intersect(other@));
        }
        r
    }

    /// The values `first`, `first + step`, ... that do not exceed `last`.
    pub fn stepped(first: u64, last: u64, step: u64) -> (r: FieldSet)
        requires
            last < 64,
        ensures
            r@ == stepped_range(first as int, last as int, step as int),
    {
        let mut acc = FieldSet::empty();
        if step < 1 || first > last {
            return acc;
        }
        let mut v: u64 = first;
        while v <= last
            invariant
                step >= 1,
                last < 64,
                first <= v,
                acc@.union(stepped_range(v as int, last as int, step as int)) == stepped_range(
                    first as int,
                    last as int,
                    step as int,
                ),
            decreases last + 1 - v,
        {
            proof {
                assert(acc@.insert(v as int).union(
                    stepped_range(v + step, last as int, step as int),
                ) =~= acc@.union(stepped_range(v as int, last as int, step as int)));
            }
            acc = acc.with(v);
            if step > last - v {
                proof {
                    assert(acc@.union(stepped_range(v + step, last as int, step as int))
                        =~= acc@);
                }
                return acc;
            }
            v = v + step;
        }
        proof {
            assert(acc@.union(stepped_range(v as int, last as int, step as int)) =~= acc@);
        }
        acc
    }
}

} // verus!
