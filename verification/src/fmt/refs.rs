//! The formatting traits on shared and mutable references: each forwards
//! to the referenced value, and does what formatting that value does.

use super::{Formatter, FormatterView, Result};
use vstd::prelude::*;

verus! {

impl<'a, T: ?Sized + super::Debug> super::Debug for &'a T {
    open spec fn debug_post(&self, before: FormatterView, after: FormatterView, r: Result) -> bool {
        (**self).debug_post(before, after, r)
    }

    fn fmt(&self, f: &mut Formatter) -> Result {
        super::Debug::fmt(&**self, f)
    }
}

impl<'a, T: ?Sized + super::Debug> super::Debug for &'a mut T {
    open spec fn debug_post(&self, before: FormatterView, after: FormatterView, r: Result) -> bool {
        (**self).debug_post(before, after, r)
    }

    fn fmt(&self, f: &mut Formatter) -> Result {
        super::Debug::fmt(&**self, f)
    }
}

impl<'a, T: ?Sized + super::Display> super::Display for &'a T {
    open spec fn display_post(&self, before: FormatterView, after: FormatterView, r: Result) -> bool {
        (**self).display_post(before, after, r)
    }

    fn fmt(&self, f: &mut Formatter) -> Result {
        super::Display::fmt(&**self, f)
    }
}

impl<'a, T: ?Sized + super::Display> super::Display for &'a mut T {
    open spec fn display_post(&self, before: FormatterView, after: FormatterView, r: Result) -> bool {
        (**self).display_post(before, after, r)
    }

    fn fmt(&self, f: &mut Formatter) -> Result {
        super::Display::fmt(&**self, f)
    }
}

impl<'a, T: ?Sized + super::Octal> super::Octal for &'a T {
    open spec fn octal_post(&self, before: FormatterView, after: FormatterView, r: Result) -> bool {
        (**self).octal_post(before, after, r)
    }

    fn fmt(&self, f: &mut Formatter) -> Result {
        super::Octal::fmt(&**self, f)
    }
}

impl<'a, T: ?Sized + super::Octal> super::Octal for &'a mut T {
    open spec fn octal_post(&self, before: FormatterView, after: FormatterView, r: Result) -> bool {
        (**self).octal_post(before, after, r)
    }

    fn fmt(&self, f: &mut Formatter) -> Result {
        super::Octal::fmt(&**self, f)
    }
}

impl<'a, T: ?Sized + super::Binary> super::Binary for &'a T {
    open spec fn binary_post(&self, before: FormatterView, after: FormatterView, r: Result) -> bool {
        (**self).binary_post(before, after, r)
    }

    fn fmt(&self, f: &mut Formatter) -> Result {
        super::Binary::fmt(&**self, f)
    }
}

impl<'a, T: ?Sized + super::Binary> super::Binary for &'a mut T {
    open spec fn binary_post(&self, before: FormatterView, after: FormatterView, r: Result) -> bool {
        (**self).binary_post(before, after, r)
    }

    fn fmt(&self, f: &mut Formatter) -> Result {
        super::Binary::fmt(&**self, f)
    }
}

impl<'a, T: ?Sized + super::LowerHex> super::LowerHex for &'a T {
    open spec fn lower_hex_post(&self, before: FormatterView, after: FormatterView, r: Result) -> bool {
        (**self).lower_hex_post(before, after, r)
    }

    fn fmt(&self, f: &mut Formatter) -> Result {
        super::LowerHex::fmt(&**self, f)
    }
}

impl<'a, T: ?Sized + super::LowerHex> super::LowerHex for &'a mut T {
    open spec fn lower_hex_post(&self, before: FormatterView, after: FormatterView, r: Result) -> bool {
        (**self).lower_hex_post(before, after, r)
    }

    fn fmt(&self, f: &mut Formatter) -> Result {
        super::LowerHex::fmt(&**self, f)
    }
}

impl<'a, T: ?Sized + super::UpperHex> super::UpperHex for &'a T {
    open spec fn upper_hex_post(&self, before: FormatterView, after: FormatterView, r: Result) -> bool {
        (**self).upper_hex_post(before, after, r)
    }

    fn fmt(&self, f: &mut Formatter) -> Result {
        super::UpperHex::fmt(&**self, f)
    }
}

impl<'a, T: ?Sized + super::UpperHex> super::UpperHex for &'a mut T {
    open spec fn upper_hex_post(&self, before: FormatterView, after: FormatterView, r: Result) -> bool {
        (**self).upper_hex_post(before, after, r)
    }

    fn fmt(&self, f: &mut Formatter) -> Result {
        super::UpperHex::fmt(&**self, f)
    }
}

impl<'a, T: ?Sized + super::LowerExp> super::LowerExp for &'a T {
    open spec fn lower_exp_post(&self, before: FormatterView, after: FormatterView, r: Result) -> bool {
        (**self).lower_exp_post(before, after, r)
    }

    fn fmt(&self, f: &mut Formatter) -> Result {
        super::LowerExp::fmt(&**self, f)
    }
}

impl<'a, T: ?Sized + super::LowerExp> super::LowerExp for &'a mut T {
    open spec fn lower_exp_post(&self, before: FormatterView, after: FormatterView, r: Result) -> bool {
        (**self).lower_exp_post(before, after, r)
    }

    fn fmt(&self, f: &mut Formatter) -> Result {
        super::LowerExp::fmt(&**self, f)
    }
}

impl<'a, T: ?Sized + super::UpperExp> super::UpperExp for &'a T {
    open spec fn upper_exp_post(&self, before: FormatterView, after: FormatterView, r: Result) -> bool {
        (**self).upper_exp_post(before, after, r)
    }

    fn fmt(&self, f: &mut Formatter) -> Result {
        super::UpperExp::fmt(&**self, f)
    }
}

impl<'a, T: ?Sized + super::UpperExp> super::UpperExp for &'a mut T {
    open spec fn upper_exp_post(&self, before: FormatterView, after: FormatterView, r: Result) -> bool {
        (**self).upper_exp_post(before, after, r)
    }

    fn fmt(&self, f: &mut Formatter) -> Result {
        super::UpperExp::fmt(&**self, f)
    }
}

} // verus!
