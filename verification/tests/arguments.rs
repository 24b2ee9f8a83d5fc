use avr_core::fmt::rt::v1::Alignment as RtAlignment;
use avr_core::fmt::{ArgValue, ArgumentV1, Arguments, Formatter, Write};

#[test]
fn argument_from_usize() {
    let n = 17usize;
    let a = ArgumentV1::from_usize(&n);
    assert_eq!(a.as_usize(), Some(17));
    let b = a.clone();
    assert_eq!(b.as_usize(), Some(17));
}

#[test]
fn capacity_without_arguments_is_pieces_length() {
    let pieces = ["hello ", "world"];
    let args: [ArgumentV1; 0] = [];
    let a = Arguments::new_v1(&pieces, &args);
    assert_eq!(a.estimated_capacity(), 11);
}

#[test]
fn capacity_without_pieces() {
    let pieces: [&str; 0] = [];
    let args: [ArgumentV1; 0] = [];
    assert_eq!(Arguments::new_v1(&pieces, &args).estimated_capacity(), 0);
}

#[test]
fn capacity_counts_bytes() {
    let pieces = ["é"];
    let args: [ArgumentV1; 0] = [];
    assert_eq!(Arguments::new_v1(&pieces, &args).estimated_capacity(), 2);
}

#[test]
fn capacity_starting_with_argument_and_short() {
    let n = 3usize;
    let pieces = ["", " apples"];
    let args = [ArgumentV1::from_usize(&n)];
    assert_eq!(Arguments::new_v1(&pieces, &args).estimated_capacity(), 0);
}

#[test]
fn capacity_starting_with_argument_and_long() {
    let n = 3usize;
    let pieces = ["", " apples and some pears"];
    let args = [ArgumentV1::from_usize(&n)];
    assert_eq!(Arguments::new_v1(&pieces, &args).estimated_capacity(), 44);
}

#[test]
fn capacity_with_arguments_doubles() {
    let n = 3usize;
    let pieces = ["x = ", ""];
    let args = [ArgumentV1::from_usize(&n)];
    assert_eq!(Arguments::new_v1(&pieces, &args).estimated_capacity(), 8);
}

#[test]
fn write_hello_world() {
    let pieces = ["Hello ", "!"];
    let args = [ArgumentV1::new(ArgValue::DisplayStr("world"))];
    let a = Arguments::new_v1(&pieces, &args);
    let mut f = Formatter::new(' ', RtAlignment::Unknown, 0, None, None);
    assert!(avr_core::fmt::write(&mut f, a).is_ok());
    assert_eq!(f.output(), "Hello world!");
}

#[test]
fn write_pieces_only() {
    let pieces = ["abc"];
    let args: [ArgumentV1; 0] = [];
    let a = Arguments::new_v1(&pieces, &args);
    let mut f = Formatter::new(' ', RtAlignment::Unknown, 0, None, None);
    avr_core::fmt::write(&mut f, a).unwrap();
    f.write_fmt(a).unwrap();
    assert_eq!(f.output(), "abcabc");
}

#[test]
fn write_interleaves_in_order() {
    let n = 1234usize;
    let pieces = ["a=", ", b=", ", c=", ", d=", "."];
    let args = [
        ArgumentV1::from_usize(&n),
        ArgumentV1::new(ArgValue::DebugStr("x\ny")),
        ArgumentV1::new(ArgValue::DisplayBool(false)),
        ArgumentV1::new(ArgValue::DebugChar('\t')),
    ];
    let mut f = Formatter::new(' ', RtAlignment::Unknown, 0, None, None);
    avr_core::fmt::write(&mut f, Arguments::new_v1(&pieces, &args)).unwrap();
    assert_eq!(f.output(), "a=1234, b=\"x\\ny\", c=false, d='\\t'.");
}

#[test]
fn write_argument_first_and_no_trailing_piece() {
    let pieces = ["", " and "];
    let args = [
        ArgumentV1::new(ArgValue::DisplayChar('x')),
        ArgumentV1::new(ArgValue::DebugBool(true)),
    ];
    let mut f = Formatter::new(' ', RtAlignment::Unknown, 0, None, None);
    avr_core::fmt::write(&mut f, Arguments::new_v1(&pieces, &args)).unwrap();
    assert_eq!(f.output(), "x and true");
}

#[test]
fn write_extra_pieces_and_arguments_are_ignored() {
    let pieces = ["a", "b", "c"];
    let args: [ArgumentV1; 0] = [];
    let mut f = Formatter::new(' ', RtAlignment::Unknown, 0, None, None);
    avr_core::fmt::write(&mut f, Arguments::new_v1(&pieces, &args)).unwrap();
    assert_eq!(f.output(), "a");
    let pieces = ["<"];
    let args = [
        ArgumentV1::new(ArgValue::DisplayStr("1")),
        ArgumentV1::new(ArgValue::DisplayStr("2")),
    ];
    let mut g = Formatter::new(' ', RtAlignment::Unknown, 0, None, None);
    avr_core::fmt::write(&mut g, Arguments::new_v1(&pieces, &args)).unwrap();
    assert_eq!(g.output(), "<1");
}

#[test]
fn count_shown_in_decimal() {
    for (n, text) in [(0usize, "0"), (7, "7"), (10, "10"), (90210, "90210"), (usize::MAX, "18446744073709551615")] {
        let pieces = [""];
        let args = [ArgumentV1::from_usize(&n)];
        let mut f = Formatter::new(' ', RtAlignment::Unknown, 0, None, None);
        f.write_fmt(Arguments::new_v1(&pieces, &args)).unwrap();
        assert_eq!(f.output(), text);
    }
}

#[test]
fn write_fmt_ignores_formatter_options() {
    let pieces = ["[", "]"];
    let args = [ArgumentV1::new(ArgValue::DisplayStr("ab"))];
    let a = Arguments::new_v1(&pieces, &args);
    let mut f = Formatter::new('*', RtAlignment::Right, 1, Some(10), Some(1));
    f.write_fmt(a).unwrap();
    assert_eq!(f.output(), "[ab]");
    assert_eq!(f.width(), Some(10));
    avr_core::fmt::Display::fmt(&a, &mut f).unwrap();
    avr_core::fmt::Debug::fmt(&a, &mut f).unwrap();
    Write::write_fmt(&mut f, a).unwrap();
    assert_eq!(f.output(), "[ab][ab][ab][ab]");
}

struct Collect(String);

impl Write for Collect {
    fn write_str(&mut self, s: &str) -> avr_core::fmt::Result {
        self.0.push_str(s);
        Ok(())
    }
}

#[test]
fn provided_write_fmt_writes_world() {
    let pieces = [""];
    let args = [ArgumentV1::new(ArgValue::DisplayStr("world"))];
    let mut buf = Collect(String::new());
    buf.write_fmt(Arguments::new_v1(&pieces, &args)).unwrap();
    assert_eq!(buf.0, "world");
    let pieces = ["Hello ", "!"];
    let mut out = Collect(String::new());
    avr_core::fmt::write(&mut out, Arguments::new_v1(&pieces, &args)).unwrap();
    assert_eq!(out.0, "Hello world!");
}

#[test]
fn argument_kinds() {
    let a = ArgumentV1::new(ArgValue::DisplayStr("s"));
    assert_eq!(a.as_usize(), None);
    let n = 5usize;
    assert_eq!(ArgumentV1::from_usize(&n).as_usize(), Some(5));
}

use avr_core::fmt::rt::v1::{Argument, Count, FormatSpec, Position};

fn spec(position: Position, fill: char, align: RtAlignment, flags: u32, width: Count, precision: Count) -> Argument {
    Argument { position, format: FormatSpec { fill, align, flags, precision, width } }
}

#[test]
fn formatted_width_and_alignment() {
    let pieces = ["[", "]"];
    let args = [ArgumentV1::new(ArgValue::DisplayStr("ab"))];
    let fmt = [spec(Position::Next, '*', RtAlignment::Right, 0, Count::Is(5), Count::Implied)];
    let mut f = Formatter::new(' ', RtAlignment::Unknown, 0, None, None);
    avr_core::fmt::write(&mut f, Arguments::new_v1_formatted(&pieces, &args, &fmt)).unwrap();
    assert_eq!(f.output(), "[***ab]");
}

#[test]
fn formatted_counts_from_arguments() {
    let width = 6usize;
    let precision = 2usize;
    let pieces = ["", "|", "|"];
    let args = [
        ArgumentV1::new(ArgValue::DisplayStr("hello")),
        ArgumentV1::from_usize(&width),
        ArgumentV1::from_usize(&precision),
    ];
    // {0:1$} then {0:.2$}
    let fmt = [
        spec(Position::At(0), ' ', RtAlignment::Unknown, 0, Count::Param(1), Count::Implied),
        spec(Position::At(0), ' ', RtAlignment::Unknown, 0, Count::Implied, Count::Param(2)),
    ];
    let mut f = Formatter::new(' ', RtAlignment::Unknown, 0, None, None);
    f.write_fmt(Arguments::new_v1_formatted(&pieces, &args, &fmt)).unwrap();
    assert_eq!(f.output(), "hello |he|");
}

#[test]
fn formatted_next_param_precision() {
    // {:.*} takes the precision from the next argument, then the value.
    let precision = 3usize;
    let pieces = ["<", ">"];
    let args = [ArgumentV1::from_usize(&precision), ArgumentV1::new(ArgValue::DisplayStr("abcdef"))];
    let fmt = [spec(Position::Next, ' ', RtAlignment::Unknown, 0, Count::Implied, Count::NextParam)];
    let mut f = Formatter::new(' ', RtAlignment::Unknown, 0, None, None);
    avr_core::fmt::write(&mut f, Arguments::new_v1_formatted(&pieces, &args, &fmt)).unwrap();
    assert_eq!(f.output(), "<abc>");
}

#[test]
fn formatted_count_from_non_count_is_ignored() {
    let pieces = ["", ""];
    let args = [ArgumentV1::new(ArgValue::DisplayStr("x"))];
    let fmt = [spec(Position::At(0), ' ', RtAlignment::Unknown, 0, Count::Param(0), Count::Implied)];
    let mut f = Formatter::new(' ', RtAlignment::Unknown, 0, None, None);
    f.write_fmt(Arguments::new_v1_formatted(&pieces, &args, &fmt)).unwrap();
    assert_eq!(f.output(), "x");
}

#[test]
fn formatted_integer_flags() {
    let n = 42usize;
    let pieces = ["n="];
    let args = [ArgumentV1::from_usize(&n)];
    // {:+06}
    let fmt = [spec(Position::Next, ' ', RtAlignment::Unknown, (1 << 0) | (1 << 3), Count::Is(6), Count::Implied)];
    let mut f = Formatter::new(' ', RtAlignment::Unknown, 0, None, None);
    f.write_fmt(Arguments::new_v1_formatted(&pieces, &args, &fmt)).unwrap();
    assert_eq!(f.output(), "n=+00042");
}

#[test]
fn formatted_specs_run_in_order_and_trailing_piece() {
    let pieces = ["a", "b", "c"];
    let args = [ArgumentV1::new(ArgValue::DebugChar('q')), ArgumentV1::new(ArgValue::DisplayBool(true))];
    let fmt = [
        spec(Position::Next, ' ', RtAlignment::Unknown, 0, Count::Implied, Count::Implied),
        spec(Position::Next, '-', RtAlignment::Center, 0, Count::Is(8), Count::Implied),
    ];
    let mut f = Formatter::new(' ', RtAlignment::Unknown, 0, None, None);
    f.write_fmt(Arguments::new_v1_formatted(&pieces, &args, &fmt)).unwrap();
    assert_eq!(f.output(), "a'q'b--true--c");
}

#[test]
fn formatted_capacity_ignores_specs() {
    let pieces = ["ab", "cd"];
    let args = [ArgumentV1::new(ArgValue::DisplayStr("x"))];
    let fmt = [spec(Position::Next, ' ', RtAlignment::Unknown, 0, Count::Implied, Count::Implied)];
    assert_eq!(Arguments::new_v1_formatted(&pieces, &args, &fmt).estimated_capacity(), 8);
}
