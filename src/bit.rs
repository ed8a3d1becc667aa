//! A single binary digit.

use vstd::prelude::*;

verus! {

/// The value of one bit.
#[derive(Clone, Copy, Debug, PartialEq, Eq, Structural)]
pub enum Bit {
    Zero,
    One,
}

impl Bit {
    /// The bit as a truth value.
    pub open spec fn is_set(self) -> bool {
        self == Bit::One
    }

    /// The bit that stands for `b`.
    pub open spec fn of(b: bool) -> Bit {
        if b {
            Bit::One
        } else {
            Bit::Zero
        }
    }
}

impl Default for Bit {
    fn default() -> (r: Self)
        ensures
            r == Bit::Zero,
    {
        Bit::Zero
    }
}

impl From<bool> for Bit {
    fn from(b: bool) -> (r: Self)
        ensures
            r == Bit::of(b),
    {
        if b {
            Bit::One
        } else {
            Bit::Zero
        }
    }
}

impl vstd::std_specs::convert::FromSpecImpl<bool> for Bit {
    open spec fn obeys_from_spec() -> bool {
        true
    }

    open spec fn from_spec(b: bool) -> Bit {
        Bit::of(b)
    }
}

impl From<u8> for Bit {
    /// Zero for `0`, one for anything else.
    fn from(x: u8) -> (r: Self)
        ensures
            r == Bit::of(x != 0),
    {
        if x == 0 {
            Bit::Zero
        } else {
            Bit::One
        }
    }
}

impl vstd::std_specs::convert::FromSpecImpl<u8> for Bit {
    open spec fn obeys_from_spec() -> bool {
        true
    }

    open spec fn from_spec(x: u8) -> Bit {
        Bit::of(x != 0)
    }
}

impl From<Bit> for bool {
    fn from(b: Bit) -> (r: bool)
        ensures
            r == b.is_set(),
    {
        match b {
            Bit::Zero => false,
            Bit::One => true,
        }
    }
}

impl vstd::std_specs::convert::FromSpecImpl<Bit> for bool {
    open spec fn obeys_from_spec() -> bool {
        true
    }

    open spec fn from_spec(b: Bit) -> bool {
        b.is_set()
    }
}

impl From<Bit> for u8 {
    fn from(b: Bit) -> (r: u8)
        ensures
            r == (if b.is_set() { 1u8 } else { 0u8 }),
    {
        match b {
            Bit::Zero => 0,
            Bit::One => 1,
        }
    }
}

impl vstd::std_specs::convert::FromSpecImpl<Bit> for u8 {
    open spec fn obeys_from_spec() -> bool {
        true
    }

    open spec fn from_spec(b: Bit) -> u8 {
        if b.is_set() {
            1u8
        } else {
            0u8
        }
    }
}

impl core::ops::BitAnd for Bit {
    type Output = Bit;

    fn bitand(self, rhs: Bit) -> (r: Bit)
        ensures
            r == Bit::of(self.is_set() && rhs.is_set()),
    {
        if self == Bit::One && rhs == Bit::One {
            Bit::One
        } else {
            Bit::Zero
        }
    }
}

impl core::ops::BitOr for Bit {
    type Output = Bit;

    fn bitor(self, rhs: Bit) -> (r: Bit)
        ensures
            r == Bit::of(self.is_set() || rhs.is_set()),
    {
        if self == Bit::One || rhs == Bit::One {
            Bit::One
        } else {
            Bit::Zero
        }
    }
}

impl core::ops::BitXor for Bit {
    type Output = Bit;

    fn bitxor(self, rhs: Bit) -> (r: Bit)
        ensures
            r == Bit::of(self.is_set() != rhs.is_set()),
    {
        if self == rhs {
            Bit::Zero
        } else {
            Bit::One
        }
    }
}

impl core::ops::Not for Bit {
    type Output = Bit;

    fn not(self) -> (r: Bit)
        ensures
            r == Bit::of(!self.is_set()),
    {
        match self {
            Bit::Zero => Bit::One,
            Bit::One => Bit::Zero,
        }
    }
}

impl vstd::std_specs::ops::BitAndSpecImpl for Bit {
    open spec fn obeys_bitand_spec() -> bool {
        true
    }

    open spec fn bitand_req(self, rhs: Bit) -> bool {
        true
    }

    open spec fn bitand_spec(self, rhs: Bit) -> Bit {
        Bit::of(self.is_set() && rhs.is_set())
    }
}

impl vstd::std_specs::ops::BitOrSpecImpl for Bit {
    open spec fn obeys_bitor_spec() -> bool {
        true
    }

    open spec fn bitor_req(self, rhs: Bit) -> bool {
        true
    }

    open spec fn bitor_spec(self, rhs: Bit) -> Bit {
        Bit::of(self.is_set() || rhs.is_set())
    }
}

impl vstd::std_specs::ops::BitXorSpecImpl for Bit {
    open spec fn obeys_bitxor_spec() -> bool {
        true
    }

    open spec fn bitxor_req(self, rhs: Bit) -> bool {
        true
    }

    open spec fn bitxor_spec(self, rhs: Bit) -> Bit {
        Bit::of(self.is_set() != rhs.is_set())
    }
}

impl vstd::std_specs::ops::NotSpecImpl for Bit {
    open spec fn obeys_not_spec() -> bool {
        true
    }

    open spec fn not_req(self) -> bool {
        true
    }

    open spec fn not_spec(self) -> Bit {
        Bit::of(!self.is_set())
    }
}

} // verus!
