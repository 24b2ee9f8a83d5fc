//! `Display` for the primitive types and for `Error`.

use super::{pad_output, bool_text, error_text, string_from_char, Arguments, Display, Error, Formatter, FormatterView, Result};
use vstd::prelude::*;

verus! {

impl Display for str {
    open spec fn display_post(&self, before: FormatterView, after: FormatterView, r: Result) -> bool {
        &&& after == before.appended(pad_output(before, self@))
        &&& r is Ok
    }

    fn fmt(&self, f: &mut Formatter) -> (r: Result) {
        f.pad(self)
    }
}

impl Display for bool {
    open spec fn display_post(&self, before: FormatterView, after: FormatterView, r: Result) -> bool {
        &&& after == before.appended(pad_output(before, bool_text(*self)))
        &&& r is Ok
    }

    fn fmt(&self, f: &mut Formatter) -> (r: Result) {
        Display::fmt(if *self { "true" } else { "false" }, f)
    }
}

impl Display for Error {
    open spec fn display_post(&self, before: FormatterView, after: FormatterView, r: Result) -> bool {
        &&& after == before.appended(pad_output(before, error_text()))
        &&& r is Ok
    }

    fn fmt(&self, f: &mut Formatter) -> (r: Result) {
        Display::fmt("an error occurred when formatting an argument", f)
    }
}

impl Display for char {
    open spec fn display_post(&self, before: FormatterView, after: FormatterView, r: Result) -> bool {
        &&& after == before.appended(pad_output(before, seq![*self]))
        &&& r is Ok
    }

    fn fmt(&self, f: &mut Formatter) -> (r: Result) {
        let s = string_from_char(*self);
        f.pad(s.as_str())
    }
}

impl<'a> Display for Arguments<'a> {
    /// Emits the formatted text, made with default options whatever the
    /// formatter's options are.
    open spec fn display_post(&self, before: FormatterView, after: FormatterView, r: Result) -> bool {
        &&& after == before.appended(self.text())
        &&& r is Ok
    }

    fn fmt(&self, f: &mut Formatter) -> (r: Result) {
        f.write_fmt(*self)
    }
}

} // verus!
