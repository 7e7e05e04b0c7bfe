//! Parity, as a small trait over the integer widths the crate touches.
use vstd::prelude::*;

verus! {

/// Whether a value is even.
pub trait IsEven {
    /// Evenness at the specification level.
    spec fn spec_even(&self) -> bool;

    fn is_even(&self) -> (r: bool)
        ensures
            r == self.spec_even(),
    ;
}

impl IsEven for u32 {
    open spec fn spec_even(&self) -> bool {
        *self % 2 == 0
    }

    fn is_even(&self) -> (r: bool)
        ensures
            r == self.spec_even(),
    {
        *self % 2 == 0
    }
}

impl IsEven for u64 {
    open spec fn spec_even(&self) -> bool {
        *self % 2 == 0
    }

    fn is_even(&self) -> (r: bool)
        ensures
            r == self.spec_even(),
    {
        *self % 2 == 0
    }
}

impl IsEven for usize {
    open spec fn spec_even(&self) -> bool {
        *self % 2 == 0
    }

    fn is_even(&self) -> (r: bool)
        ensures
            r == self.spec_even(),
    {
        *self % 2 == 0
    }
}

impl IsEven for i32 {
    open spec fn spec_even(&self) -> bool {
        *self as int % 2 == 0
    }

    fn is_even(&self) -> (r: bool)
        ensures
            r == self.spec_even(),
    {
        let m = *self % 2;
        proof {
            assert(*self as int % 2 == if m >= 0 {
                m as int
            } else {
                m + 2
            });
        }
        m == 0
    }
}

impl IsEven for i64 {
    open spec fn spec_even(&self) -> bool {
        *self as int % 2 == 0
    }

    fn is_even(&self) -> (r: bool)
        ensures
            r == self.spec_even(),
    {
        let m = *self % 2;
        proof {
            assert(*self as int % 2 == if m >= 0 {
                m as int
            } else {
                m + 2
            });
        }
        m == 0
    }
}

} // verus!
