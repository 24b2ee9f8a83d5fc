use avr_core::fmt::rt::v1::Alignment as RtAlignment;
use avr_core::fmt::{Error, Formatter};
use std::cell::{RefCell, UnsafeCell};
use std::marker::PhantomData;

fn plain() -> Formatter<'static> {
    Formatter::new(' ', RtAlignment::Unknown, 0, None, None)
}

#[test]
fn display_str_pads() {
    let mut f = Formatter::new('-', RtAlignment::Center, 0, Some(7), None);
    avr_core::fmt::Display::fmt("abc", &mut f).unwrap();
    assert_eq!(f.output(), "--abc--");
}

#[test]
fn display_bool() {
    let mut f = plain();
    avr_core::fmt::Display::fmt(&true, &mut f).unwrap();
    avr_core::fmt::Display::fmt(&false, &mut f).unwrap();
    assert_eq!(f.output(), "truefalse");
}

#[test]
fn display_bool_with_precision() {
    let mut f = Formatter::new(' ', RtAlignment::Unknown, 0, Some(4), Some(2));
    avr_core::fmt::Display::fmt(&false, &mut f).unwrap();
    assert_eq!(f.output(), "fa  ");
}

#[test]
fn debug_bool_is_display() {
    let mut f = Formatter::new('.', RtAlignment::Right, 0, Some(6), None);
    avr_core::fmt::Debug::fmt(&true, &mut f).unwrap();
    assert_eq!(f.output(), "..true");
}

#[test]
fn display_error() {
    let mut f = plain();
    avr_core::fmt::Display::fmt(&Error, &mut f).unwrap();
    assert_eq!(f.output(), "an error occurred when formatting an argument");
}

#[test]
fn display_char() {
    let mut f = plain();
    avr_core::fmt::Display::fmt(&'q', &mut f).unwrap();
    assert_eq!(f.output(), "q");
    let mut g = Formatter::new('0', RtAlignment::Right, 0, Some(3), None);
    avr_core::fmt::Display::fmt(&'λ', &mut g).unwrap();
    assert_eq!(g.output(), "00λ");
}

#[test]
fn debug_str_plain() {
    let mut f = plain();
    avr_core::fmt::Debug::fmt("hello", &mut f).unwrap();
    assert_eq!(f.output(), "\"hello\"");
}

#[test]
fn debug_str_escapes() {
    let mut f = plain();
    avr_core::fmt::Debug::fmt("a\"b\\c\nd\te'", &mut f).unwrap();
    assert_eq!(f.output(), "\"a\\\"b\\\\c\\nd\\te\\'\"");
}

#[test]
fn debug_str_control_character() {
    let mut f = plain();
    avr_core::fmt::Debug::fmt("\u{1}x", &mut f).unwrap();
    assert_eq!(f.output(), "\"\\u{1}x\"");
}

#[test]
fn debug_str_ignores_width() {
    let mut f = Formatter::new('*', RtAlignment::Right, 0, Some(10), Some(1));
    avr_core::fmt::Debug::fmt("ab", &mut f).unwrap();
    assert_eq!(f.output(), "\"ab\"");
}

#[test]
fn debug_str_non_ascii_kept() {
    let mut f = plain();
    avr_core::fmt::Debug::fmt("héllo", &mut f).unwrap();
    assert_eq!(f.output(), "\"héllo\"");
}

#[test]
fn debug_char() {
    let mut f = plain();
    avr_core::fmt::Debug::fmt(&'a', &mut f).unwrap();
    avr_core::fmt::Debug::fmt(&'\n', &mut f).unwrap();
    avr_core::fmt::Debug::fmt(&'\'', &mut f).unwrap();
    assert_eq!(f.output(), "'a''\\n''\\''");
}

#[test]
fn debug_unit() {
    let mut f = Formatter::new(' ', RtAlignment::Right, 0, Some(4), None);
    avr_core::fmt::Debug::fmt(&(), &mut f).unwrap();
    assert_eq!(f.output(), "  ()");
}

#[test]
fn debug_phantom_data() {
    let mut f = plain();
    let p: PhantomData<u8> = PhantomData;
    avr_core::fmt::Debug::fmt(&p, &mut f).unwrap();
    assert_eq!(f.output(), "PhantomData");
}

#[test]
fn references_forward() {
    let mut f = plain();
    let b = true;
    let r = &b;
    avr_core::fmt::Display::fmt(&r, &mut f).unwrap();
    let mut c = 'z';
    let m = &mut c;
    avr_core::fmt::Debug::fmt(&m, &mut f).unwrap();
    let s: &str = "s";
    avr_core::fmt::Display::fmt(&s, &mut f).unwrap();
    assert_eq!(f.output(), "true'z's");
}

struct Hex(u8);

impl avr_core::fmt::LowerHex for Hex {
    fn fmt(&self, f: &mut Formatter) -> avr_core::fmt::Result {
        let digits = format!("{:x}", self.0);
        f.pad_integral(true, "0x", &digits)
    }
}

#[test]
fn user_trait_impl_through_reference() {
    let mut f = Formatter::new(' ', RtAlignment::Unknown, 1 << 2, None, None);
    let h = Hex(255);
    avr_core::fmt::LowerHex::fmt(&&h, &mut f).unwrap();
    assert_eq!(f.output(), "0xff");
}

#[test]
fn error_default_and_order() {
    let e: Error = Default::default();
    assert_eq!(e, Error);
    assert!(e <= Error);
}

#[test]
fn debug_cells() {
    let mut f = plain();
    let u = UnsafeCell::new(true);
    avr_core::fmt::Debug::fmt(&u, &mut f).unwrap();
    let c = RefCell::new(false);
    avr_core::fmt::Debug::fmt(&c.borrow(), &mut f).unwrap();
    avr_core::fmt::Debug::fmt(&c.borrow_mut(), &mut f).unwrap();
    assert_eq!(f.output(), "UnsafeCellfalsefalse");
}

#[test]
fn debug_of_concatenation_is_concatenation() {
    let mut whole = plain();
    avr_core::fmt::Debug::fmt("a\nb\"", &mut whole).unwrap();
    let mut left = plain();
    avr_core::fmt::Debug::fmt("a\n", &mut left).unwrap();
    let mut right = plain();
    avr_core::fmt::Debug::fmt("b\"", &mut right).unwrap();
    let l = left.output();
    let r = right.output();
    let joined = format!("{}{}", &l[..l.len() - 1], &r[1..]);
    assert_eq!(whole.output(), joined);
}

#[test]
fn str_char_shown_chooses() {
    assert_eq!(avr_core::fmt::str_char_shown('a', &vec!['a']), vec!['a']);
    assert_eq!(avr_core::fmt::str_char_shown('\n', &vec!['\\', 'n']), vec!['\\', 'n']);
    assert_eq!(avr_core::fmt::str_char_shown('x', &vec!['y']), vec!['x']);
}
