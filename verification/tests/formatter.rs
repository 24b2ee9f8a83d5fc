use avr_core::fmt::rt::v1::Alignment as RtAlignment;
use avr_core::fmt::{Alignment, Formatter, Write};

fn formatter(fill: char, align: RtAlignment, flags: u32, width: Option<usize>, precision: Option<usize>) -> Formatter<'static> {
    Formatter::new(fill, align, flags, width, precision)
}

const SIGN_PLUS: u32 = 1 << 0;
const SIGN_MINUS: u32 = 1 << 1;
const ALTERNATE: u32 = 1 << 2;
const ZERO_PAD: u32 = 1 << 3;

#[test]
fn pad_plain() {
    let mut f = formatter(' ', RtAlignment::Unknown, 0, None, None);
    assert!(f.pad("hello").is_ok());
    assert_eq!(f.output(), "hello");
}

#[test]
fn pad_width_defaults_to_left() {
    let mut f = formatter(' ', RtAlignment::Unknown, 0, Some(5), None);
    assert!(f.pad("ab").is_ok());
    assert_eq!(f.output(), "ab   ");
}

#[test]
fn pad_right_alignment() {
    let mut f = formatter('-', RtAlignment::Right, 0, Some(5), None);
    f.pad("ab").unwrap();
    assert_eq!(f.output(), "---ab");
}

#[test]
fn pad_center_odd_padding_puts_extra_after() {
    let mut f = formatter('*', RtAlignment::Center, 0, Some(5), None);
    f.pad("ab").unwrap();
    assert_eq!(f.output(), "*ab**");
}

#[test]
fn pad_center_even_padding() {
    let mut f = formatter('*', RtAlignment::Center, 0, Some(6), None);
    f.pad("ab").unwrap();
    assert_eq!(f.output(), "**ab**");
}

#[test]
fn pad_width_smaller_than_string() {
    let mut f = formatter('*', RtAlignment::Right, 0, Some(2), None);
    f.pad("hello").unwrap();
    assert_eq!(f.output(), "hello");
}

#[test]
fn pad_precision_truncates() {
    let mut f = formatter(' ', RtAlignment::Unknown, 0, None, Some(3));
    f.pad("hello").unwrap();
    assert_eq!(f.output(), "hel");
}

#[test]
fn pad_precision_longer_than_string() {
    let mut f = formatter(' ', RtAlignment::Unknown, 0, None, Some(10));
    f.pad("hello").unwrap();
    assert_eq!(f.output(), "hello");
}

#[test]
fn pad_precision_then_width() {
    let mut f = formatter('.', RtAlignment::Right, 0, Some(6), Some(2));
    f.pad("hello").unwrap();
    assert_eq!(f.output(), "....he");
}

#[test]
fn pad_counts_characters_not_bytes() {
    let mut f = formatter('_', RtAlignment::Left, 0, Some(4), Some(2));
    f.pad("ééé").unwrap();
    assert_eq!(f.output(), "éé__");
}

#[test]
fn pad_unicode_fill() {
    let mut f = formatter('→', RtAlignment::Right, 0, Some(3), None);
    f.pad("x").unwrap();
    assert_eq!(f.output(), "→→x");
}

#[test]
fn pad_appends_to_earlier_output() {
    let mut f = formatter(' ', RtAlignment::Right, 0, Some(3), None);
    f.write_str("[").unwrap();
    f.pad("a").unwrap();
    f.write_str("]").unwrap();
    assert_eq!(f.output(), "[  a]");
}

#[test]
fn pad_integral_negative() {
    let mut f = formatter(' ', RtAlignment::Unknown, 0, None, None);
    f.pad_integral(false, "", "42").unwrap();
    assert_eq!(f.output(), "-42");
}

#[test]
fn pad_integral_sign_plus() {
    let mut f = formatter(' ', RtAlignment::Unknown, SIGN_PLUS, None, None);
    f.pad_integral(true, "", "42").unwrap();
    assert_eq!(f.output(), "+42");
}

#[test]
fn pad_integral_prefix_only_with_alternate() {
    let mut f = formatter(' ', RtAlignment::Unknown, 0, None, None);
    f.pad_integral(true, "0x", "2a").unwrap();
    assert_eq!(f.output(), "2a");
    let mut g = formatter(' ', RtAlignment::Unknown, ALTERNATE, None, None);
    g.pad_integral(true, "0x", "2a").unwrap();
    assert_eq!(g.output(), "0x2a");
}

#[test]
fn pad_integral_width_defaults_to_right() {
    let mut f = formatter(' ', RtAlignment::Unknown, 0, Some(6), None);
    f.pad_integral(false, "", "42").unwrap();
    assert_eq!(f.output(), "   -42");
}

#[test]
fn pad_integral_left_aligned() {
    let mut f = formatter('.', RtAlignment::Left, SIGN_PLUS, Some(6), None);
    f.pad_integral(true, "", "7").unwrap();
    assert_eq!(f.output(), "+7....");
}

#[test]
fn pad_integral_zero_pad_sign_first() {
    let mut f = formatter(' ', RtAlignment::Unknown, ZERO_PAD, Some(6), None);
    f.pad_integral(false, "", "42").unwrap();
    assert_eq!(f.output(), "-00042");
}

#[test]
fn pad_integral_zero_pad_after_prefix() {
    let mut f = formatter('*', RtAlignment::Left, ZERO_PAD | ALTERNATE, Some(8), None);
    f.pad_integral(true, "0x", "2a").unwrap();
    assert_eq!(f.output(), "0x00002a");
}

#[test]
fn pad_integral_zero_pad_keeps_options() {
    let mut f = formatter('*', RtAlignment::Left, ZERO_PAD, Some(4), None);
    f.pad_integral(true, "", "1").unwrap();
    assert_eq!(f.output(), "0001");
    assert_eq!(f.fill(), '*');
    assert!(matches!(f.align(), Alignment::Left));
    f.pad("x").unwrap();
    assert_eq!(f.output(), "0001x***");
}

#[test]
fn pad_integral_width_already_reached() {
    let mut f = formatter('*', RtAlignment::Right, SIGN_PLUS, Some(3), None);
    f.pad_integral(true, "", "123").unwrap();
    assert_eq!(f.output(), "+123");
}

#[test]
fn pad_integral_center() {
    let mut f = formatter('~', RtAlignment::Center, 0, Some(5), None);
    f.pad_integral(false, "", "1").unwrap();
    assert_eq!(f.output(), "~-1~~");
}

#[test]
fn pad_integral_ignores_precision() {
    let mut f = formatter(' ', RtAlignment::Unknown, 0, None, Some(1));
    f.pad_integral(true, "", "12345").unwrap();
    assert_eq!(f.output(), "12345");
}

#[test]
fn flag_queries_read_their_own_bits() {
    let f = formatter(' ', RtAlignment::Unknown, SIGN_PLUS, None, None);
    assert!(f.sign_plus() && !f.sign_minus() && !f.alternate() && !f.sign_aware_zero_pad());
    let f = formatter(' ', RtAlignment::Unknown, SIGN_MINUS, None, None);
    assert!(!f.sign_plus() && f.sign_minus() && !f.alternate() && !f.sign_aware_zero_pad());
    let f = formatter(' ', RtAlignment::Unknown, ALTERNATE, None, None);
    assert!(!f.sign_plus() && !f.sign_minus() && f.alternate() && !f.sign_aware_zero_pad());
    let f = formatter(' ', RtAlignment::Unknown, ZERO_PAD, None, None);
    assert!(!f.sign_plus() && !f.sign_minus() && !f.alternate() && f.sign_aware_zero_pad());
    let f = formatter(' ', RtAlignment::Unknown, 0xffff_fff0, None, None);
    assert!(!f.sign_plus() && !f.sign_minus() && !f.alternate() && !f.sign_aware_zero_pad());
    assert_eq!(f.flags(), 0xffff_fff0);
}

#[test]
fn getters_return_the_options() {
    let f = formatter('#', RtAlignment::Center, 5, Some(7), Some(2));
    assert_eq!(f.fill(), '#');
    assert_eq!(f.flags(), 5);
    assert_eq!(f.width(), Some(7));
    assert_eq!(f.precision(), Some(2));
    assert_eq!(f.output(), "");
}

#[test]
fn align_maps_each_variant() {
    assert!(matches!(formatter(' ', RtAlignment::Left, 0, None, None).align(), Alignment::Left));
    assert!(matches!(formatter(' ', RtAlignment::Right, 0, None, None).align(), Alignment::Right));
    assert!(matches!(formatter(' ', RtAlignment::Center, 0, None, None).align(), Alignment::Center));
    assert!(matches!(formatter(' ', RtAlignment::Unknown, 0, None, None).align(), Alignment::Unknown));
}

#[test]
fn write_trait_on_formatter() {
    let mut f = formatter('*', RtAlignment::Right, 0, Some(10), None);
    Write::write_str(&mut f, "ab").unwrap();
    Write::write_char(&mut f, 'ü').unwrap();
    assert_eq!(f.output(), "abü");
}

#[test]
fn write_trait_through_mutable_reference() {
    let mut f = formatter(' ', RtAlignment::Unknown, 0, None, None);
    {
        let mut r = &mut f;
        Write::write_str(&mut r, "x").unwrap();
        Write::write_char(&mut r, 'y').unwrap();
    }
    assert_eq!(f.output(), "xy");
}

struct Collect(String);

impl Write for Collect {
    fn write_str(&mut self, s: &str) -> avr_core::fmt::Result {
        self.0.push_str(s);
        Ok(())
    }
}

#[test]
fn write_char_default_goes_through_write_str() {
    let mut c = Collect(String::new());
    c.write_char('ß').unwrap();
    c.write_char('!').unwrap();
    assert_eq!(c.0, "ß!");
}

#[test]
fn pad_integral_sign_and_prefix_padded_together() {
    let mut f = formatter(' ', RtAlignment::Unknown, ALTERNATE, Some(8), None);
    f.pad_integral(false, "0x", "2a").unwrap();
    assert_eq!(f.output(), "   -0x2a");
}

#[test]
fn pad_integral_byte_width_of_digits() {
    // The digits are measured in bytes: "é" is two bytes wide.
    let mut f = formatter('.', RtAlignment::Right, 0, Some(3), None);
    f.pad_integral(true, "", "é").unwrap();
    assert_eq!(f.output(), ".é");
}

#[test]
fn pad_length_law_on_examples() {
    for (w, p, s) in [(Some(5usize), None, "ab"), (Some(1), None, "abc"), (Some(4), Some(2usize), "abcdef"), (None, Some(3), "ab")] {
        let mut f = formatter('*', RtAlignment::Center, 0, w, p);
        f.pad(s).unwrap();
        let truncated = match p { Some(p) if s.chars().count() > p => p, _ => s.chars().count() };
        let expected = match w { Some(w) if truncated < w => w, _ => truncated };
        assert_eq!(f.output().chars().count(), expected);
    }
}

#[test]
fn center_split_law_on_examples() {
    for padding in 0..6usize {
        let mut f = formatter('*', RtAlignment::Center, 0, Some(1 + padding), None);
        f.pad("x").unwrap();
        let out = f.output();
        let before = out.find('x').unwrap();
        let after = out.len() - before - 1;
        assert_eq!(before + after, padding);
        assert!(before <= after && after <= before + 1);
    }
}
