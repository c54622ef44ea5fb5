//! Addresses in a core of the standard size.

use crate::redcode::CORESIZE;
use crate::relaxed_redcode::reduce;
use vstd::prelude::*;
use vstd::std_specs::cmp::PartialEqSpecImpl;
use vstd::std_specs::ops::{AddSpecImpl, SubSpecImpl};

verus! {

/// An address in a core of [`CORESIZE`] cells.  Sums and differences of
/// addresses are taken modulo the size of the core.
#[derive(Copy, Clone, Debug, Eq)]
pub struct RedAddr {
    val: usize,
}

impl View for RedAddr {
    type V = usize;

    closed spec fn view(&self) -> usize {
        self.val
    }
}

impl PartialEq for RedAddr {
    fn eq(&self, other: &Self) -> (r: bool) {
        self.val == other.val
    }
}

impl PartialEqSpecImpl for RedAddr {
    open spec fn obeys_eq_spec() -> bool {
        true
    }

    open spec fn eq_spec(&self, other: &Self) -> bool {
        self@ == other@
    }
}

impl Default for RedAddr {
    fn default() -> (r: RedAddr)
        ensures
            r@ == 0,
    {
        RedAddr { val: 0 }
    }
}

impl core::ops::Add<RedAddr> for RedAddr {
    type Output = RedAddr;

    fn add(self, rhs: RedAddr) -> (r: RedAddr) {
        RedAddr { val: (self.val + rhs.val) % CORESIZE }
    }
}

impl AddSpecImpl<RedAddr> for RedAddr {
    open spec fn obeys_add_spec() -> bool {
        true
    }

    open spec fn add_req(self, rhs: RedAddr) -> bool {
        self@ + rhs@ <= usize::MAX
    }

    open spec fn add_spec(self, rhs: RedAddr) -> RedAddr {
        RedAddr::spec_new(((self@ + rhs@) % (CORESIZE as int)) as usize)
    }
}

impl core::ops::Sub<RedAddr> for RedAddr {
    type Output = RedAddr;

    fn sub(self, rhs: RedAddr) -> (r: RedAddr) {
        RedAddr { val: (self.val + (CORESIZE - rhs.val)) % CORESIZE }
    }
}

impl SubSpecImpl<RedAddr> for RedAddr {
    open spec fn obeys_sub_spec() -> bool {
        true
    }

    open spec fn sub_req(self, rhs: RedAddr) -> bool {
        rhs@ <= CORESIZE && self@ + CORESIZE - rhs@ <= usize::MAX
    }

    open spec fn sub_spec(self, rhs: RedAddr) -> RedAddr {
        RedAddr::spec_new(((self@ + CORESIZE - rhs@) % (CORESIZE as int)) as usize)
    }
}

impl RedAddr {
    /// The address that holds `a`.
    pub closed spec fn spec_new(a: usize) -> RedAddr {
        RedAddr { val: a }
    }

    /// An address that holds `a` as it is.
    pub fn new(a: usize) -> (r: RedAddr)
        ensures
            r == RedAddr::spec_new(a),
            r@ == a,
    {
        RedAddr { val: a }
    }

    /// The address that lies `a` cells behind the first, or before it if `a`
    /// is negative.
    pub fn from_i32(a: i32) -> (r: RedAddr)
        ensures
            r@ == a as int % (CORESIZE as int),
    {
        RedAddr { val: reduce(a as i64, CORESIZE as u32) as usize }
    }

    /// The address as a number.
    pub fn value(self) -> (r: usize)
        ensures
            r == self@,
    {
        self.val
    }
}

/// The address that is made of a number holds that number.
pub proof fn lemma_spec_new(a: usize)
    ensures
        RedAddr::spec_new(a)@ == a,
{
}

} // verus!
