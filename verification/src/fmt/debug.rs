//! `Debug` for the primitive types, `Arguments` and the cell types.

use super::{pad_output, bool_text, phantom_data_text, Arguments, Formatter, FormatterView, Result};
use std::marker::PhantomData;
use vstd::prelude::*;

verus! {

/// `std::cell::UnsafeCell`, which the debug output names without reading
/// what it holds.
#[verifier::external_type_specification]
#[verifier::external_body]
#[verifier::reject_recursive_types(T)]
pub struct ExUnsafeCell<T: ?Sized>(std::cell::UnsafeCell<T>);

/// `std::cell::Ref`, a shared borrow of the contents of a `RefCell`.
#[verifier::external_type_specification]
#[verifier::external_body]
#[verifier::reject_recursive_types(T)]
pub struct ExRef<'b, T: ?Sized>(std::cell::Ref<'b, T>);

/// `std::cell::RefMut`, a mutable borrow of the contents of a `RefCell`.
#[verifier::external_type_specification]
#[verifier::external_body]
#[verifier::reject_recursive_types(T)]
pub struct ExRefMut<'b, T: ?Sized + 'b>(std::cell::RefMut<'b, T>);

/// The value a `Ref` borrows (`Deref::deref` on `std::cell::Ref`). Nothing
/// is stated of it, since Verus sees nothing inside a `Ref`.
#[verifier::external_body]
fn ref_deref<'a, 'b, T: ?Sized>(r: &'a std::cell::Ref<'b, T>) -> &'a T {
    std::ops::Deref::deref(r)
}

/// The value a `RefMut` borrows (`Deref::deref` on `std::cell::RefMut`).
/// Nothing is stated of it, since Verus sees nothing inside a `RefMut`.
#[verifier::external_body]
fn ref_mut_deref<'a, 'b, T: ?Sized>(r: &'a std::cell::RefMut<'b, T>) -> &'a T {
    std::ops::Deref::deref(r)
}

/// What `char::escape_debug` yields for `c`: the character itself when it
/// needs no escaping, or its escape sequence.
pub uninterp spec fn escape_debug_of(c: char) -> Seq<char>;

/// The characters of `char::escape_debug(c)`, collected. Its documentation
/// shows a newline escaped as a backslash and `n`; what it yields for other
/// characters takes the Unicode tables and is only named here.
#[verifier::external_body]
fn char_escape_debug(c: char) -> (r: Vec<char>)
    ensures
        r@ == escape_debug_of(c),
        c == '\n' ==> r@ == seq!['\\', 'n'],
{
    c.escape_debug().collect()
}

/// How a character with escape sequence `esc` appears inside the debug
/// output of a string: the escape sequence when it is longer than one
/// character, else the character itself.
pub open spec fn shown_in_str(c: char, esc: Seq<char>) -> Seq<char> {
    if esc.len() != 1 {
        esc
    } else {
        seq![c]
    }
}

/// How a character appears inside the debug output of a string.
pub open spec fn escaped_char(c: char) -> Seq<char> {
    shown_in_str(c, escape_debug_of(c))
}

/// The characters that stand for `c` inside the debug output of a string,
/// given its escape sequence `esc`.
pub fn str_char_shown(c: char, esc: &Vec<char>) -> (r: Vec<char>)
    ensures
        r@ == shown_in_str(c, esc@),
{
    if esc.len() != 1 {
        esc.clone()
    } else {
        let mut r = Vec::new();
        r.push(c);
        r
    }
}

/// The body of the debug output of a string: each character as
/// `escaped_char` shows it.
pub open spec fn escaped_str(s: Seq<char>) -> Seq<char>
    decreases s.len(),
{
    if s.len() == 0 {
        Seq::empty()
    } else {
        escaped_str(s.drop_last()) + escaped_char(s.last())
    }
}

/// The debug output of a string: the escaped body between double quotes.
pub open spec fn debug_str_text(s: Seq<char>) -> Seq<char> {
    seq!['"'] + escaped_str(s) + seq!['"']
}

/// The debug output of a character: its escape sequence between single
/// quotes.
pub open spec fn debug_char_text(c: char) -> Seq<char> {
    seq!['\''] + escape_debug_of(c) + seq!['\'']
}

impl super::Debug for bool {
    open spec fn debug_post(&self, before: FormatterView, after: FormatterView, r: Result) -> bool {
        &&& after == before.appended(pad_output(before, bool_text(*self)))
        &&& r is Ok
    }

    fn fmt(&self, f: &mut Formatter) -> (r: Result) {
        super::Display::fmt(self, f)
    }
}

impl super::Debug for str {
    open spec fn debug_post(&self, before: FormatterView, after: FormatterView, r: Result) -> bool {
        &&& after == before.appended(debug_str_text(self@))
        &&& r is Ok
    }

    fn fmt(&self, f: &mut Formatter) -> (r: Result) {
        let ghost start = f@;
        f.emit_char('"')?;
        broadcast use vstd::string::group_string_axioms;
        for c in it: self.chars()
            invariant
                it.seq() == self@,
                f@ == start.appended(seq!['"'] + escaped_str(self@.take(it.index() as int))),
        {
            let ghost i = it.index();
            let ghost before = f@;
            let esc = char_escape_debug(c);
            let shown = str_char_shown(c, &esc);
            let mut j: usize = 0;
            while j < shown.len()
                invariant
                    0 <= j <= shown@.len(),
                    shown@ == escaped_char(c),
                    f@ == before.appended(shown@.take(j as int)),
                decreases shown@.len() - j,
            {
                f.emit_char(shown[j])?;
                assert(shown@.take(j as int) + seq![shown@[j as int]] =~= shown@.take(j + 1));
                proof {
                    before.lemma_appended_twice(shown@.take(j as int), seq![shown@[j as int]]);
                }
                j = j + 1;
            }
            assert(shown@.take(shown@.len() as int) =~= shown@);
            assert(self@.take(i + 1).drop_last() =~= self@.take(i as int));
            assert(self@.take(i + 1).last() == c);
            assert(f@ == before.appended(escaped_char(c)));
            proof {
                start.lemma_appended_twice(seq!['"'] + escaped_str(self@.take(i as int)), escaped_char(c));
                assert(seq!['"'] + escaped_str(self@.take(i as int)) + escaped_char(c) =~= seq!['"'] + escaped_str(self@.take(i + 1)));
            }
        }
        assert(self@.take(self@.len() as int) =~= self@);
        let r = f.emit_char('"');
        proof {
            start.lemma_appended_twice(seq!['"'] + escaped_str(self@), seq!['"']);
        }
        r
    }
}

impl super::Debug for char {
    open spec fn debug_post(&self, before: FormatterView, after: FormatterView, r: Result) -> bool {
        &&& after == before.appended(debug_char_text(*self))
        &&& r is Ok
    }

    fn fmt(&self, f: &mut Formatter) -> (r: Result) {
        let ghost start = f@;
        f.emit_char('\'')?;
        let esc = char_escape_debug(*self);
        let mut j: usize = 0;
        while j < esc.len()
            invariant
                0 <= j <= esc@.len(),
                esc@ == escape_debug_of(*self),
                f@ == start.appended(seq!['\''] + esc@.take(j as int)),
            decreases esc@.len() - j,
        {
            f.emit_char(esc[j])?;
            proof {
                start.lemma_appended_twice(seq!['\''] + esc@.take(j as int), seq![esc@[j as int]]);
                assert(seq!['\''] + esc@.take(j as int) + seq![esc@[j as int]] =~= seq!['\''] + esc@.take(j + 1));
            }
            j = j + 1;
        }
        assert(esc@.take(esc@.len() as int) =~= esc@);
        let r = f.emit_char('\'');
        proof {
            start.lemma_appended_twice(seq!['\''] + esc@, seq!['\'']);
        }
        r
    }
}

impl super::Debug for () {
    open spec fn debug_post(&self, before: FormatterView, after: FormatterView, r: Result) -> bool {
        &&& after == before.appended(pad_output(before, "()"@))
        &&& r is Ok
    }

    fn fmt(&self, f: &mut Formatter) -> (r: Result) {
        f.pad("()")
    }
}

impl<T: ?Sized> super::Debug for PhantomData<T> {
    open spec fn debug_post(&self, before: FormatterView, after: FormatterView, r: Result) -> bool {
        &&& after == before.appended(pad_output(before, phantom_data_text()))
        &&& r is Ok
    }

    fn fmt(&self, f: &mut Formatter) -> (r: Result) {
        f.pad("PhantomData")
    }
}

impl<'a> super::Debug for Arguments<'a> {
    open spec fn debug_post(&self, before: FormatterView, after: FormatterView, r: Result) -> bool {
        &&& after == before.appended(self.text())
        &&& r is Ok
    }

    fn fmt(&self, f: &mut Formatter) -> (r: Result) {
        super::Display::fmt(self, f)
    }
}

impl<T: ?Sized + super::Debug> super::Debug for std::cell::UnsafeCell<T> {
    open spec fn debug_post(&self, before: FormatterView, after: FormatterView, r: Result) -> bool {
        &&& after == before.appended(pad_output(before, "UnsafeCell"@))
        &&& r is Ok
    }

    fn fmt(&self, f: &mut Formatter) -> (r: Result) {
        f.pad("UnsafeCell")
    }
}

impl<'b, T: ?Sized + super::Debug> super::Debug for std::cell::Ref<'b, T> {
    /// Formatting a borrow formats some value of the borrowed type: the one
    /// it borrows, of which Verus sees nothing.
    open spec fn debug_post(&self, before: FormatterView, after: FormatterView, r: Result) -> bool {
        exists|v: &T| #[trigger] v.debug_post(before, after, r)
    }

    fn fmt(&self, f: &mut Formatter) -> Result {
        let v = ref_deref(self);
        let r = super::Debug::fmt(v, f);
        assert(v.debug_post(old(f)@, f@, r));
        r
    }
}

impl<'b, T: ?Sized + super::Debug> super::Debug for std::cell::RefMut<'b, T> {
    /// Formatting a borrow formats some value of the borrowed type: the one
    /// it borrows, of which Verus sees nothing.
    open spec fn debug_post(&self, before: FormatterView, after: FormatterView, r: Result) -> bool {
        exists|v: &T| #[trigger] v.debug_post(before, after, r)
    }

    fn fmt(&self, f: &mut Formatter) -> Result {
        let v = ref_mut_deref(self);
        let r = super::Debug::fmt(v, f);
        assert(v.debug_post(old(f)@, f@, r));
        r
    }
}

} // verus!
