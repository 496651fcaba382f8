use vstd::prelude::*;

verus! {

/// How the elements of a matrix are laid out in its region.
#[derive(Debug, Clone, Copy, PartialEq, Eq, Structural)]
pub enum Order {
    RowMajor,
    ColMajor,
}

/// Whether a routine takes a matrix as it is or transposed.
#[derive(Debug, Clone, Copy, PartialEq, Eq, Structural)]
pub enum Transpose {
    NoTranspose,
    Transpose,
}

impl Order {
    /// The number that the routines of a BLAS library know the layout by.
    pub open spec fn spec_code(&self) -> i32 {
        match *self {
            Order::RowMajor => 101,
            Order::ColMajor => 102,
        }
    }

    /// The number that the routines of a BLAS library know the layout by.
    #[verifier::when_used_as_spec(spec_code)]
    pub fn code(&self) -> (c: i32)
        ensures
            c == self.spec_code(),
    {
        match *self {
            Order::RowMajor => 101,
            Order::ColMajor => 102,
        }
    }
}

impl Transpose {
    /// The number that the routines of a BLAS library know the choice by.
    pub open spec fn spec_code(&self) -> i32 {
        match *self {
            Transpose::NoTranspose => 111,
            Transpose::Transpose => 112,
        }
    }

    /// The number that the routines of a BLAS library know the choice by.
    #[verifier::when_used_as_spec(spec_code)]
    pub fn code(&self) -> (c: i32)
        ensures
            c == self.spec_code(),
    {
        match *self {
            Transpose::NoTranspose => 111,
            Transpose::Transpose => 112,
        }
    }
}

} // verus!
