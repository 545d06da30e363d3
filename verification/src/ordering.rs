//! Equality and order of the wide integer types, by the integers they hold.
use crate::arith::{lemma_limbs2_injective, lemma_limbs4_compare, lemma_limbs4_injective, U256};
use crate::fields::u512::U512;
use core::cmp::Ordering;
use vstd::prelude::*;
use vstd::std_specs::cmp::{PartialEqSpecImpl, PartialOrdSpecImpl};

verus! {

/// How the integer `a` stands to the integer `b`.
pub open spec fn order_of(a: nat, b: nat) -> Ordering {
    if a < b {
        Ordering::Less
    } else if a == b {
        Ordering::Equal
    } else {
        Ordering::Greater
    }
}

impl PartialEq for U256 {
    /// Integers are equal where their limbs are.
    fn eq(&self, other: &U256) -> (r: bool) {
        proof {
            if self@ == other@ {
                lemma_limbs2_injective(self.0, other.0);
            }
        }
        self.0[0] == other.0[0] && self.0[1] == other.0[1]
    }
}

impl Eq for U256 {

}

impl PartialEqSpecImpl for U256 {
    open spec fn obeys_eq_spec() -> bool {
        true
    }

    open spec fn eq_spec(&self, other: &U256) -> bool {
        self@ == other@
    }
}

impl PartialOrd for U256 {
    /// Compares the upper limbs, then the lower.
    fn partial_cmp(&self, other: &U256) -> (r: Option<Ordering>) {
        proof {
            if self@ == other@ {
                lemma_limbs2_injective(self.0, other.0);
            }
        }
        if self.0[1] < other.0[1] {
            Some(Ordering::Less)
        } else if self.0[1] > other.0[1] {
            Some(Ordering::Greater)
        } else if self.0[0] < other.0[0] {
            Some(Ordering::Less)
        } else if self.0[0] > other.0[0] {
            Some(Ordering::Greater)
        } else {
            Some(Ordering::Equal)
        }
    }
}

impl PartialOrdSpecImpl for U256 {
    open spec fn obeys_partial_cmp_spec() -> bool {
        true
    }

    open spec fn partial_cmp_spec(&self, other: &U256) -> Option<Ordering> {
        Some(order_of(self@, other@))
    }
}

impl PartialEq for U512 {
    /// Integers are equal where their limbs are.
    fn eq(&self, other: &U512) -> (r: bool) {
        proof {
            if self@ == other@ {
                lemma_limbs4_injective(self.0, other.0);
            }
        }
        self.0[0] == other.0[0] && self.0[1] == other.0[1] && self.0[2] == other.0[2] && self.0[3]
            == other.0[3]
    }
}

impl Eq for U512 {

}

impl PartialEqSpecImpl for U512 {
    open spec fn obeys_eq_spec() -> bool {
        true
    }

    open spec fn eq_spec(&self, other: &U512) -> bool {
        self@ == other@
    }
}

impl U512 {
    /// Compares limb by limb from the most significant down, which is the
    /// order of the integers held.
    #[inline]
    pub fn cmp(&self, other: &U512) -> (r: Ordering)
        ensures
            r == order_of(self@, other@),
    {
        proof {
            lemma_limbs4_compare(self.0, other.0);
        }
        let mut i: usize = 4;
        while i > 0
            invariant
                i <= 4,
                forall|j: int| i <= j < 4 ==> self.0[j] == other.0[j],
            decreases i,
        {
            i -= 1;
            if self.0[i] < other.0[i] {
                return Ordering::Less;
            } else if self.0[i] > other.0[i] {
                return Ordering::Greater;
            }
        }

        return Ordering::Equal;
    }
}

impl PartialOrd for U512 {
    /// The order of the integers held.
    #[inline]
    fn partial_cmp(&self, other: &U512) -> (r: Option<Ordering>) {
        Some(self.cmp(other))
    }
}

impl PartialOrdSpecImpl for U512 {
    open spec fn obeys_partial_cmp_spec() -> bool {
        true
    }

    open spec fn partial_cmp_spec(&self, other: &U512) -> Option<Ordering> {
        Some(order_of(self@, other@))
    }
}

} // verus!
