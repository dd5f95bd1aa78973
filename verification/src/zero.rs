//! The all-zero value of an element type.

use vstd::prelude::*;

verus! {

/// Element types that have a zero to fill a fresh array with.
pub trait ZeroBits: Copy {
    spec fn spec_zero_bits() -> Self;

    fn zero_bits() -> (z: Self)
        ensures
            z == Self::spec_zero_bits(),
    ;
}

impl ZeroBits for u8 {
    open spec fn spec_zero_bits() -> Self {
        0
    }

    fn zero_bits() -> (z: Self) {
        0
    }
}

impl ZeroBits for u32 {
    open spec fn spec_zero_bits() -> Self {
        0
    }

    fn zero_bits() -> (z: Self) {
        0
    }
}

impl ZeroBits for i32 {
    open spec fn spec_zero_bits() -> Self {
        0
    }

    fn zero_bits() -> (z: Self) {
        0
    }
}

impl ZeroBits for u64 {
    open spec fn spec_zero_bits() -> Self {
        0
    }

    fn zero_bits() -> (z: Self) {
        0
    }
}

impl ZeroBits for usize {
    open spec fn spec_zero_bits() -> Self {
        0
    }

    fn zero_bits() -> (z: Self) {
        0
    }
}

/// A buffer of `len` zeros.
pub fn zeroed<T: ZeroBits>(len: usize) -> (data: Vec<T>)
    ensures
        data@ == Seq::new(len as nat, |i: int| T::spec_zero_bits()),
{
    let mut data: Vec<T> = Vec::with_capacity(len);
    let mut i: usize = 0;
    while i < len
        invariant
            i <= len,
            data@ == Seq::new(i as nat, |j: int| T::spec_zero_bits()),
        decreases len - i,
    {
        data.push(T::zero_bits());
        i += 1;
        assert(data@ =~= Seq::new(i as nat, |j: int| T::spec_zero_bits()));
    }
    data
}

} // verus!
