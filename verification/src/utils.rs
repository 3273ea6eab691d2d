use vstd::prelude::*;

verus! {

/// Conversion of a signed index that is known to be non-negative.
pub trait ToUsize: Sized {
    spec fn fits_usize(self) -> bool;

    spec fn as_nat(self) -> nat;

    fn to_usize(self) -> (r: usize)
        requires
            self.fits_usize(),
        ensures
            r as nat == self.as_nat(),
    ;
}

impl ToUsize for isize {
    open spec fn fits_usize(self) -> bool {
        self >= 0
    }

    open spec fn as_nat(self) -> nat {
        self as nat
    }

    fn to_usize(self) -> (r: usize) {
        self as usize
    }
}

/// The counterpart of [`ToUsize`]; it keeps the unsigned type, so every value
/// passes through unchanged.
pub trait ToIsize: Sized {
    spec fn as_nat(self) -> nat;

    fn to_isize(self) -> (r: usize)
        ensures
            r as nat == self.as_nat(),
    ;
}

impl ToIsize for usize {
    open spec fn as_nat(self) -> nat {
        self as nat
    }

    fn to_isize(self) -> (r: usize) {
        self
    }
}

} // verus!
