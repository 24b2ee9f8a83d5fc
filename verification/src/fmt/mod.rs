//! Utilities for formatting and printing strings.

use std::marker::PhantomData;
use vstd::prelude::*;
use vstd::string::StringSliceAdditionalSpecFns;

pub mod rt;
mod debug;
mod display;
mod refs;
pub mod laws;

pub use debug::{
    debug_char_text, debug_str_text, escape_debug_of, escaped_char, escaped_str, shown_in_str,
    str_char_shown,
};

verus! {

/// Possible alignments returned by `Formatter::align`.
#[derive(Copy, Clone, Debug, PartialEq, Eq, Structural)]
pub enum Alignment {
    /// Indication that contents should be left-aligned.
    Left,
    /// Indication that contents should be right-aligned.
    Right,
    /// Indication that contents should be center-aligned.
    Center,
    /// No alignment was requested.
    Unknown,
}

/// The error type which is returned from formatting a message into a stream.
///
/// This type does not support transmission of an error other than that an
/// error occurred.
#[derive(Copy, Clone, Debug, PartialEq, Eq, Structural, PartialOrd, Ord)]
pub struct Error;

impl Default for Error {
    fn default() -> (r: Error)
        ensures
            r == Error,
    {
        Error
    }
}

/// The type returned by formatter methods.
pub type Result = std::result::Result<(), Error>;

// ---------------------------------------------------------------------------
// Mathematical model of a formatter and of what it emits
// ---------------------------------------------------------------------------

/// The abstract state of a `Formatter`: its formatting options and everything
/// it has emitted so far.
pub struct FormatterView {
    pub flags: u32,
    pub fill: char,
    pub align: rt::v1::Alignment,
    pub width: Option<usize>,
    pub precision: Option<usize>,
    pub out: Seq<char>,
}

impl FormatterView {
    /// The same formatter after `s` has been emitted.
    pub open spec fn appended(self, s: Seq<char>) -> FormatterView {
        FormatterView { out: self.out + s, ..self }
    }

    /// Emitting `a` and then `b` is emitting `a + b`.
    pub proof fn lemma_appended_twice(self, a: Seq<char>, b: Seq<char>)
        ensures
            self.appended(a).appended(b) == self.appended(a + b),
    {
        assert(self.out + a + b =~= self.out + (a + b));
    }
}

/// `n` copies of `c`.
pub open spec fn repeat(c: char, n: nat) -> Seq<char> {
    Seq::new(n, |_i: int| c)
}

/// Whether bit `bit` of `flags` is set.
pub open spec fn flag_set(flags: u32, bit: u32) -> bool {
    flags & (1u32 << bit) != 0
}

/// Bit that holds the `+` flag.
pub open spec fn sign_plus_bit() -> u32 {
    0
}

/// Bit that holds the `-` flag.
pub open spec fn sign_minus_bit() -> u32 {
    1
}

/// Bit that holds the `#` flag.
pub open spec fn alternate_bit() -> u32 {
    2
}

/// Bit that holds the `0` flag.
pub open spec fn zero_pad_bit() -> u32 {
    3
}

/// The alignment that padding follows: the requested one, or `default` when
/// none was requested.
pub open spec fn effective_align(
    align: rt::v1::Alignment,
    default: rt::v1::Alignment,
) -> rt::v1::Alignment {
    if align == rt::v1::Alignment::Unknown {
        default
    } else {
        align
    }
}

/// Number of fill characters emitted before the contents.
pub open spec fn pre_pad(
    align: rt::v1::Alignment,
    default: rt::v1::Alignment,
    padding: nat,
) -> nat {
    match effective_align(align, default) {
        rt::v1::Alignment::Left => 0,
        rt::v1::Alignment::Right => padding,
        rt::v1::Alignment::Unknown => padding,
        rt::v1::Alignment::Center => padding / 2,
    }
}

/// Number of fill characters emitted after the contents.
pub open spec fn post_pad(
    align: rt::v1::Alignment,
    default: rt::v1::Alignment,
    padding: nat,
) -> nat {
    match effective_align(align, default) {
        rt::v1::Alignment::Left => padding,
        rt::v1::Alignment::Right => 0,
        rt::v1::Alignment::Unknown => 0,
        rt::v1::Alignment::Center => (padding + 1) / 2,
    }
}

/// `content` surrounded by `padding` fill characters, placed as the alignment
/// asks.
pub open spec fn padded(
    fill: char,
    align: rt::v1::Alignment,
    default: rt::v1::Alignment,
    padding: nat,
    content: Seq<char>,
) -> Seq<char> {
    repeat(fill, pre_pad(align, default, padding)) + content + repeat(
        fill,
        post_pad(align, default, padding),
    )
}

/// The public alignment that corresponds to a runtime alignment.
pub open spec fn public_alignment(a: rt::v1::Alignment) -> Alignment {
    match a {
        rt::v1::Alignment::Left => Alignment::Left,
        rt::v1::Alignment::Right => Alignment::Right,
        rt::v1::Alignment::Center => Alignment::Center,
        rt::v1::Alignment::Unknown => Alignment::Unknown,
    }
}

/// The text of a boolean.
pub open spec fn bool_text(b: bool) -> Seq<char> {
    if b {
        "true"@
    } else {
        "false"@
    }
}

/// The text that `Error` displays.
pub open spec fn error_text() -> Seq<char> {
    "an error occurred when formatting an argument"@
}

/// The text that `PhantomData` shows in debug output.
pub open spec fn phantom_data_text() -> Seq<char> {
    "PhantomData"@
}

/// `s` cut down to at most `precision` characters.
pub open spec fn truncated(s: Seq<char>, precision: Option<usize>) -> Seq<char> {
    match precision {
        Some(max) => if s.len() > max {
            s.take(max as int)
        } else {
            s
        },
        None => s,
    }
}

/// What `Formatter::pad` emits for `s` under the options of `v`.
pub open spec fn pad_output(v: FormatterView, s: Seq<char>) -> Seq<char> {
    let t = truncated(s, v.precision);
    match v.width {
        Some(w) => if t.len() < w {
            padded(v.fill, v.align, rt::v1::Alignment::Left, (w - t.len()) as nat, t)
        } else {
            t
        },
        None => t,
    }
}

/// The sign, then the prefix when the `#` flag is set.
pub open spec fn integral_head(v: FormatterView, is_nonnegative: bool, prefix: Seq<char>) -> Seq<
    char,
> {
    let sign = if !is_nonnegative {
        seq!['-']
    } else if flag_set(v.flags, sign_plus_bit()) {
        seq!['+']
    } else {
        Seq::<char>::empty()
    };
    sign + if flag_set(v.flags, alternate_bit()) {
        prefix
    } else {
        Seq::<char>::empty()
    }
}

/// What `Formatter::pad_integral` emits. The width of the digits is counted
/// in bytes (`buf_bytes`), that of the sign and prefix in characters.
pub open spec fn pad_integral_output(
    v: FormatterView,
    is_nonnegative: bool,
    prefix: Seq<char>,
    buf: Seq<char>,
    buf_bytes: nat,
) -> Seq<char> {
    let head = integral_head(v, is_nonnegative, prefix);
    let width = buf_bytes + head.len();
    match v.width {
        Some(min) => if width >= min {
            head + buf
        } else if flag_set(v.flags, zero_pad_bit()) {
            head + repeat('0', (min - width) as nat) + buf
        } else {
            padded(v.fill, v.align, rt::v1::Alignment::Right, (min - width) as nat, head + buf)
        },
        None => head + buf,
    }
}

// ---------------------------------------------------------------------------
// String building
// ---------------------------------------------------------------------------

/// Appends one character to a `String` (`String::push`, whose documentation
/// says it appends the given char to the end of the string).
#[verifier::external_body]
fn string_push(s: &mut String, c: char)
    ensures
        final(s)@ == old(s)@.push(c),
{
    s.push(c);
}

/// A `String` holding one character.
fn string_from_char(c: char) -> (r: String)
    ensures
        r@ == seq![c],
{
    let mut s = String::new();
    string_push(&mut s, c);
    s
}

/// The concatenation of two string slices.
fn concat_strs(a: &str, b: &str) -> (r: String)
    ensures
        r@ == a@ + b@,
{
    let mut r = a.to_owned();
    r.append(b);
    r
}

// ---------------------------------------------------------------------------
// Writers
// ---------------------------------------------------------------------------

/// A collection of methods that are required to format a message into a
/// stream.
pub trait Write {
    /// What writing the characters `s` does: whether it may take the writer
    /// from `pre` to `post` with result `r`. A writer that does not say
    /// allows any outcome.
    open spec fn write_str_post(pre: &Self, post: &Self, s: Seq<char>, r: Result) -> bool {
        true
    }

    /// Writes a string slice into this writer, returning whether the write
    /// succeeded.
    fn write_str(&mut self, s: &str) -> (r: Result)
        ensures
            Self::write_str_post(&*old(self), &*final(self), s@, r),
    ;

    /// Writes a `char` into this writer, returning whether the write
    /// succeeded: it does what writing the one-character string does.
    fn write_char(&mut self, c: char) -> (r: Result)
        ensures
            Self::write_str_post(&*old(self), &*final(self), seq![c], r),
    {
        let s = string_from_char(c);
        self.write_str(s.as_str())
    }

    /// Glue for usage of the `write!` macro with implementors of this trait:
    /// writes the formatted text of `args`, as `write` does.
    fn write_fmt(&mut self, args: Arguments) -> (r: Result) where Self: Sized
        ensures
            Self::write_str_post(&*old(self), &*final(self), args.text(), r),
    {
        let text = render(&args);
        self.write_str(text.as_str())
    }
}

/// A struct to represent both where to emit formatting strings to and how
/// they should be formatted.
pub struct Formatter<'a> {
    flags: u32,
    fill: char,
    align: rt::v1::Alignment,
    width: Option<usize>,
    precision: Option<usize>,
    buf: String,
    phantom: PhantomData<&'a ()>,
}

impl<'a> View for Formatter<'a> {
    type V = FormatterView;

    closed spec fn view(&self) -> FormatterView {
        FormatterView {
            flags: self.flags,
            fill: self.fill,
            align: self.align,
            width: self.width,
            precision: self.precision,
            out: self.buf@,
        }
    }
}

// flags available in the v1 format of format_args
#[derive(Copy, Clone)]
enum FlagV1 {
    SignPlus,
    SignMinus,
    Alternate,
    SignAwareZeroPad,
}

impl FlagV1 {
    /// Position of the flag in `Formatter::flags`.
    fn bit(self) -> (r: u32)
        ensures
            r == match self {
                FlagV1::SignPlus => sign_plus_bit(),
                FlagV1::SignMinus => sign_minus_bit(),
                FlagV1::Alternate => alternate_bit(),
                FlagV1::SignAwareZeroPad => zero_pad_bit(),
            },
    {
        match self {
            FlagV1::SignPlus => 0,
            FlagV1::SignMinus => 1,
            FlagV1::Alternate => 2,
            FlagV1::SignAwareZeroPad => 3,
        }
    }
}

impl<'a> Formatter<'a> {
    /// A formatter with the given options that has emitted nothing yet.
    pub fn new(
        fill: char,
        align: rt::v1::Alignment,
        flags: u32,
        width: Option<usize>,
        precision: Option<usize>,
    ) -> (f: Formatter<'a>)
        ensures
            f@ == (FormatterView { flags, fill, align, width, precision, out: Seq::empty() }),
    {
        Formatter { flags, fill, align, width, precision, buf: String::new(), phantom: PhantomData }
    }

    /// Everything emitted so far.
    pub fn output(&self) -> (r: &str)
        ensures
            r@ == self@.out,
    {
        self.buf.as_str()
    }

    /// Writes some data to the underlying buffer contained within this
    /// formatter.
    pub fn write_str(&mut self, data: &str) -> (r: Result)
        ensures
            final(self)@ == old(self)@.appended(data@),
            r is Ok,
    {
        self.buf.append(data);
        Ok(())
    }

    /// Emits one character.
    pub(crate) fn emit_char(&mut self, c: char) -> (r: Result)
        ensures
            final(self)@ == old(self)@.appended(seq![c]),
            r is Ok,
    {
        string_push(&mut self.buf, c);
        assert(self@.out =~= old(self)@.out + seq![c]);
        Ok(())
    }

    /// Emits the fill character `n` times.
    fn write_fill(&mut self, n: usize)
        ensures
            final(self)@ == old(self)@.appended(repeat(old(self)@.fill, n as nat)),
    {
        let ghost start = self@;
        let mut i: usize = 0;
        while i < n
            invariant
                0 <= i <= n,
                self@ == start.appended(repeat(start.fill, i as nat)),
            decreases n - i,
        {
            let c = self.fill;
            string_push(&mut self.buf, c);
            i = i + 1;
            assert(repeat(start.fill, (i - 1) as nat).push(c) =~= repeat(start.fill, i as nat));
        }
    }

    /// Emits `head` then `body`, surrounded by `padding` fill characters
    /// placed as the alignment (or, when none was requested, `default`)
    /// asks.
    fn with_padding(
        &mut self,
        padding: usize,
        default: rt::v1::Alignment,
        head: &str,
        body: &str,
    ) -> (r: Result)
        ensures
            final(self)@ == old(self)@.appended(
                padded(old(self)@.fill, old(self)@.align, default, padding as nat, head@ + body@),
            ),
            r is Ok,
    {
        let ghost start = self@;
        let align = match self.align {
            rt::v1::Alignment::Unknown => default,
            _ => self.align,
        };
        let (pre_pad, post_pad) = match align {
            rt::v1::Alignment::Left => (0, padding),
            rt::v1::Alignment::Right => (padding, 0),
            rt::v1::Alignment::Unknown => (padding, 0),
            rt::v1::Alignment::Center => (padding / 2, padding / 2 + padding % 2),
        };
        self.write_fill(pre_pad);
        self.write_str(head);
        self.write_str(body);
        self.write_fill(post_pad);
        assert(self@.out =~= start.out + padded(start.fill, start.align, default, padding as nat, head@ + body@));
        Ok(())
    }

    /// Performs the correct padding for an integer which has already been
    /// emitted into a str. The str should *not* contain the sign for the
    /// integer, that will be added by this method.
    ///
    /// * is_nonnegative - whether the original integer was either positive or zero.
    /// * prefix - if the '#' character (Alternate) is provided, this
    ///   is the prefix to put in front of the number.
    /// * buf - the byte array that the number has been formatted into
    ///
    /// This function accounts for the flags provided as well as the minimum
    /// width. It does not take precision into account.
    pub fn pad_integral(&mut self, is_nonnegative: bool, prefix: &str, buf: &str) -> (r: Result)
        requires
            buf.spec_bytes().len() + prefix@.len() < usize::MAX,
        ensures
            final(self)@ == old(self)@.appended(
                pad_integral_output(
                    old(self)@,
                    is_nonnegative,
                    prefix@,
                    buf@,
                    buf.spec_bytes().len(),
                ),
            ),
            r is Ok,
    {
        let ghost start = self@;
        let mut width = buf.len();
        let sign: &str = if !is_nonnegative {
            "-"
        } else if self.sign_plus() {
            "+"
        } else {
            ""
        };
        proof {
            reveal_strlit("-");
            reveal_strlit("+");
            reveal_strlit("");
        }
        let has_sign = !is_nonnegative || self.sign_plus();
        if has_sign {
            width = width + 1;
        }
        let prefixed = self.alternate();
        if prefixed {
            width = width + prefix.unicode_len();
        }
        let shown_prefix: &str = if prefixed {
            prefix
        } else {
            ""
        };
        assert(sign@ + shown_prefix@ =~= integral_head(start, is_nonnegative, prefix@));
        assert(width == buf.spec_bytes().len() + integral_head(start, is_nonnegative, prefix@).len());
        match self.width {
            None => {
                self.write_str(sign);
                self.write_str(shown_prefix);
                self.write_str(buf);
            },
            Some(min) => {
                if width >= min {
                    self.write_str(sign);
                    self.write_str(shown_prefix);
                    self.write_str(buf);
                } else if self.sign_aware_zero_pad() {
                    self.write_str(sign);
                    self.write_str(shown_prefix);
                    let old_fill = self.fill;
                    self.fill = '0';
                    self.write_fill(min - width);
                    self.fill = old_fill;
                    self.write_str(buf);
                } else {
                    let head = if has_sign {
                        if prefixed {
                            concat_strs(sign, shown_prefix)
                        } else {
                            sign.to_owned()
                        }
                    } else {
                        shown_prefix.to_owned()
                    };
                    assert(head@ == sign@ + shown_prefix@);
                    self.with_padding(min - width, rt::v1::Alignment::Right, head.as_str(), buf);
                }
            },
        }
        assert(self@.out =~= start.out + pad_integral_output(
            start,
            is_nonnegative,
            prefix@,
            buf@,
            buf.spec_bytes().len(),
        ));
        Ok(())
    }

    /// This function takes a string slice and emits it to the internal buffer
    /// after applying the relevant formatting flags specified. The flags
    /// recognized for generic strings are:
    ///
    /// * width - the minimum width of what to emit
    /// * fill/align - what to emit and where to emit it if the string
    ///                provided needs to be padded
    /// * precision - the maximum length to emit, the string is truncated if it
    ///               is longer than this length
    ///
    /// Notably this function ignores the `flag` parameters.
    pub fn pad(&mut self, s: &str) -> (r: Result)
        ensures
            final(self)@ == old(self)@.appended(pad_output(old(self)@, s@)),
            r is Ok,
    {
        // Make sure there's a fast path up front
        if self.width.is_none() && self.precision.is_none() {
            return self.write_str(s);
        }
        // The `precision` field can be interpreted as a `max-width` for the
        // string being formatted.
        let count = s.unicode_len();
        let (t, t_len): (&str, usize) = match self.precision {
            Some(max) => if count > max {
                (s.substring_char(0, max), max)
            } else {
                (s, count)
            },
            None => (s, count),
        };
        assert(t@ == truncated(s@, self.precision));
        // The `width` field is more of a `min-width` parameter at this point.
        match self.width {
            None => self.write_str(t),
            Some(width) => if t_len >= width {
                self.write_str(t)
            } else {
                proof {
                    reveal_strlit("");
                }
                let r = self.with_padding(width - t_len, rt::v1::Alignment::Left, "", t);
                assert(Seq::<char>::empty() + t@ =~= t@);
                r
            },
        }
    }

    /// Writes some formatted information into this instance: the formatted
    /// text of `fmt`, made with default options whatever this formatter's
    /// options are.
    pub fn write_fmt(&mut self, fmt: Arguments) -> (r: Result)
        ensures
            final(self)@ == old(self)@.appended(fmt.text()),
            r is Ok,
    {
        let text = render(&fmt);
        self.write_str(text.as_str())
    }

    /// The count that `cnt` stands for, moving `cur` past the argument a
    /// `NextParam` reads.
    fn getcount(args: &[ArgumentV1], cnt: &rt::v1::Count, cur: &mut usize) -> (r: Option<usize>)
        requires
            *old(cur) <= args@.len(),
            cnt matches rt::v1::Count::Param(i) ==> i < args@.len(),
        ensures
            (r, *final(cur) as nat) == count_of(args@, *cnt, *old(cur) as nat),
            *final(cur) <= args@.len(),
    {
        match *cnt {
            rt::v1::Count::Is(n) => Some(n),
            rt::v1::Count::Implied => None,
            rt::v1::Count::Param(i) => args[i].as_usize(),
            rt::v1::Count::NextParam => if *cur < args.len() {
                let a = args[*cur];
                *cur = *cur + 1;
                a.as_usize()
            } else {
                None
            },
        }
    }

    /// Runs one placeholder specification: takes on its fill, alignment,
    /// flags, width and precision, and formats the argument it names with
    /// them. `cur` is where the next argument is looked for.
    fn run(&mut self, arg: &rt::v1::Argument, args: &[ArgumentV1], cur: &mut usize) -> (r: Result)
        requires
            *old(cur) <= args@.len(),
            spec_ok(args@, *arg, *old(cur) as nat),
        ensures
            final(self)@.out == old(self)@.out + spec_text(args@, *arg, *old(cur) as nat),
            *final(cur) as nat == spec_choices(args@, *arg, *old(cur) as nat).3,
            *final(cur) <= args@.len(),
            r is Ok,
    {
        let ghost c0 = *cur as nat;
        self.fill = arg.format.fill;
        self.align = arg.format.align;
        self.flags = arg.format.flags;
        self.width = Formatter::getcount(args, &arg.format.width, cur);
        self.precision = Formatter::getcount(args, &arg.format.precision, cur);
        let value = match arg.position {
            rt::v1::Position::Next => {
                let v = args[*cur];
                *cur = *cur + 1;
                v
            },
            rt::v1::Position::At(i) => args[i],
        };
        let ghost before = self@;
        assert(before.flags == spec_options(args@, *arg, c0).flags);
        let r = value.format(self);
        assert(arg_output(before, value.value_view()) == spec_text(args@, *arg, c0));
        r
    }

    /// Flags for formatting (packed version of rt::Flag)
    pub fn flags(&self) -> (r: u32)
        ensures
            r == self@.flags,
    {
        self.flags
    }

    /// Character used as 'fill' whenever there is alignment
    pub fn fill(&self) -> (r: char)
        ensures
            r == self@.fill,
    {
        self.fill
    }

    /// Flag indicating what form of alignment was requested
    pub fn align(&self) -> (r: Alignment)
        ensures
            r == public_alignment(self@.align),
    {
        match self.align {
            rt::v1::Alignment::Left => Alignment::Left,
            rt::v1::Alignment::Right => Alignment::Right,
            rt::v1::Alignment::Center => Alignment::Center,
            rt::v1::Alignment::Unknown => Alignment::Unknown,
        }
    }

    /// Optionally specified integer width that the output should be
    pub fn width(&self) -> (r: Option<usize>)
        ensures
            r == self@.width,
    {
        self.width
    }

    /// Optionally specified precision for numeric types
    pub fn precision(&self) -> (r: Option<usize>)
        ensures
            r == self@.precision,
    {
        self.precision
    }

    /// Determines if the `+` flag was specified.
    pub fn sign_plus(&self) -> (r: bool)
        ensures
            r == flag_set(self@.flags, sign_plus_bit()),
    {
        self.flags & (1u32 << FlagV1::SignPlus.bit()) != 0
    }

    /// Determines if the `-` flag was specified.
    pub fn sign_minus(&self) -> (r: bool)
        ensures
            r == flag_set(self@.flags, sign_minus_bit()),
    {
        self.flags & (1u32 << FlagV1::SignMinus.bit()) != 0
    }

    /// Determines if the `#` flag was specified.
    pub fn alternate(&self) -> (r: bool)
        ensures
            r == flag_set(self@.flags, alternate_bit()),
    {
        self.flags & (1u32 << FlagV1::Alternate.bit()) != 0
    }

    /// Determines if the `0` flag was specified.
    pub fn sign_aware_zero_pad(&self) -> (r: bool)
        ensures
            r == flag_set(self@.flags, zero_pad_bit()),
    {
        self.flags & (1u32 << FlagV1::SignAwareZeroPad.bit()) != 0
    }
}


impl<'a> Write for Formatter<'a> {
    /// The characters are emitted; the options stay as they were.
    open spec fn write_str_post(pre: &Self, post: &Self, s: Seq<char>, r: Result) -> bool {
        &&& post@ == pre@.appended(s)
        &&& r is Ok
    }

    fn write_str(&mut self, s: &str) -> (r: Result) {
        self.buf.append(s);
        Ok(())
    }

    fn write_char(&mut self, c: char) -> (r: Result) {
        string_push(&mut self.buf, c);
        assert(self@.out =~= old(self)@.out + seq![c]);
        Ok(())
    }

    fn write_fmt(&mut self, args: Arguments) -> (r: Result) {
        let text = render(&args);
        self.buf.append(text.as_str());
        Ok(())
    }
}

/// A mutable reference writes through to the writer it refers to: each
/// method does what that writer's does.
impl<'a, W: Write> Write for &'a mut W {
    open spec fn write_str_post(pre: &Self, post: &Self, s: Seq<char>, r: Result) -> bool {
        W::write_str_post(&**pre, &**post, s, r)
    }

    fn write_str(&mut self, s: &str) -> Result {
        (**self).write_str(s)
    }

    fn write_char(&mut self, c: char) -> Result {
        (**self).write_char(c)
    }

    fn write_fmt(&mut self, args: Arguments) -> Result {
        (**self).write_fmt(args)
    }
}

// ---------------------------------------------------------------------------
// Formatting traits
// ---------------------------------------------------------------------------

/// Format trait for the `?` character.
///
/// `Debug` should format the output in a programmer-facing, debugging
/// context.
pub trait Debug {
    /// What formatting `self` does: whether it may take a formatter from
    /// `before` to `after` with result `r`. A type that does not say allows
    /// any outcome.
    open spec fn debug_post(&self, before: FormatterView, after: FormatterView, r: Result) -> bool {
        true
    }

    /// Formats the value using the given formatter.
    fn fmt(&self, f: &mut Formatter) -> (r: Result)
        ensures
            self.debug_post(old(f)@, final(f)@, r),
    ;
}

/// Format trait for an empty format, `{}`.
///
/// `Display` is similar to `Debug`, but `Display` is for user-facing output.
pub trait Display {
    /// What formatting `self` does: whether it may take a formatter from
    /// `before` to `after` with result `r`. A type that does not say allows
    /// any outcome.
    open spec fn display_post(&self, before: FormatterView, after: FormatterView, r: Result) -> bool {
        true
    }

    /// Formats the value using the given formatter.
    fn fmt(&self, f: &mut Formatter) -> (r: Result)
        ensures
            self.display_post(old(f)@, final(f)@, r),
    ;
}

/// Format trait for the `o` character: output as a number in base-8.
pub trait Octal {
    /// What formatting `self` does: whether it may take a formatter from
    /// `before` to `after` with result `r`. A type that does not say allows
    /// any outcome.
    open spec fn octal_post(&self, before: FormatterView, after: FormatterView, r: Result) -> bool {
        true
    }

    /// Formats the value using the given formatter.
    fn fmt(&self, f: &mut Formatter) -> (r: Result)
        ensures
            self.octal_post(old(f)@, final(f)@, r),
    ;
}

/// Format trait for the `b` character: output as a number in binary.
pub trait Binary {
    /// What formatting `self` does: whether it may take a formatter from
    /// `before` to `after` with result `r`. A type that does not say allows
    /// any outcome.
    open spec fn binary_post(&self, before: FormatterView, after: FormatterView, r: Result) -> bool {
        true
    }

    /// Formats the value using the given formatter.
    fn fmt(&self, f: &mut Formatter) -> (r: Result)
        ensures
            self.binary_post(old(f)@, final(f)@, r),
    ;
}

/// Format trait for the `x` character: output as a number in hexadecimal,
/// with `a` through `f` in lower case.
pub trait LowerHex {
    /// What formatting `self` does: whether it may take a formatter from
    /// `before` to `after` with result `r`. A type that does not say allows
    /// any outcome.
    open spec fn lower_hex_post(&self, before: FormatterView, after: FormatterView, r: Result) -> bool {
        true
    }

    /// Formats the value using the given formatter.
    fn fmt(&self, f: &mut Formatter) -> (r: Result)
        ensures
            self.lower_hex_post(old(f)@, final(f)@, r),
    ;
}

/// Format trait for the `X` character: output as a number in hexadecimal,
/// with `A` through `F` in upper case.
pub trait UpperHex {
    /// What formatting `self` does: whether it may take a formatter from
    /// `before` to `after` with result `r`. A type that does not say allows
    /// any outcome.
    open spec fn upper_hex_post(&self, before: FormatterView, after: FormatterView, r: Result) -> bool {
        true
    }

    /// Formats the value using the given formatter.
    fn fmt(&self, f: &mut Formatter) -> (r: Result)
        ensures
            self.upper_hex_post(old(f)@, final(f)@, r),
    ;
}

/// Format trait for the `p` character: output as a memory location.
pub trait Pointer {
    /// Formats the value using the given formatter.
    fn fmt(&self, f: &mut Formatter) -> Result;
}

/// Format trait for the `e` character: scientific notation with a
/// lower-case `e`.
pub trait LowerExp {
    /// What formatting `self` does: whether it may take a formatter from
    /// `before` to `after` with result `r`. A type that does not say allows
    /// any outcome.
    open spec fn lower_exp_post(&self, before: FormatterView, after: FormatterView, r: Result) -> bool {
        true
    }

    /// Formats the value using the given formatter.
    fn fmt(&self, f: &mut Formatter) -> (r: Result)
        ensures
            self.lower_exp_post(old(f)@, final(f)@, r),
    ;
}

/// Format trait for the `E` character: scientific notation with an
/// upper-case `E`.
pub trait UpperExp {
    /// What formatting `self` does: whether it may take a formatter from
    /// `before` to `after` with result `r`. A type that does not say allows
    /// any outcome.
    open spec fn upper_exp_post(&self, before: FormatterView, after: FormatterView, r: Result) -> bool {
        true
    }

    /// Formats the value using the given formatter.
    fn fmt(&self, f: &mut Formatter) -> (r: Result)
        ensures
            self.upper_exp_post(old(f)@, final(f)@, r),
    ;
}

// ---------------------------------------------------------------------------
// Arguments
// ---------------------------------------------------------------------------

/// What an argument holds and how it is to be formatted: a value of one of
/// the types this library formats, with the trait to format it by, or a
/// count (a `usize` given for a width or a precision, shown in decimal).
#[derive(Copy, Clone)]
pub enum ArgValue<'a> {
    /// A count, shown in decimal.
    Count(usize),
    /// A string slice, formatted by `Display`.
    DisplayStr(&'a str),
    /// A string slice, formatted by `Debug`.
    DebugStr(&'a str),
    /// A boolean, formatted by `Display`.
    DisplayBool(bool),
    /// A boolean, formatted by `Debug`.
    DebugBool(bool),
    /// A character, formatted by `Display`.
    DisplayChar(char),
    /// A character, formatted by `Debug`.
    DebugChar(char),
}

/// The generic "argument" which is taken by the Xprintf family of functions:
/// a value together with the formatting to apply to it.
#[derive(Copy, Clone)]
pub struct ArgumentV1<'a> {
    value: ArgValue<'a>,
}

/// The character of a decimal digit.
pub open spec fn digit_char(d: nat) -> char {
    (d + 48) as char
}

/// The decimal digits of `n`, most significant first, without leading
/// zeros (`"0"` for zero).
pub open spec fn decimal(n: nat) -> Seq<char>
    decreases n,
{
    if n < 10 {
        seq![digit_char(n)]
    } else {
        decimal(n / 10).push(digit_char(n % 10))
    }
}

/// The formatter options of a freshly made formatter: no flags, a space as
/// fill, no alignment, width or precision, nothing emitted.
pub open spec fn default_view() -> FormatterView {
    FormatterView {
        flags: 0,
        fill: ' ',
        align: rt::v1::Alignment::Unknown,
        width: None,
        precision: None,
        out: Seq::empty(),
    }
}

/// What formatting an argument emits into a formatter with the options of `v`.
pub open spec fn arg_output(v: FormatterView, a: ArgValue) -> Seq<char> {
    match a {
        ArgValue::Count(n) => pad_integral_output(
            v,
            true,
            Seq::empty(),
            decimal(n as nat),
            decimal(n as nat).len(),
        ),
        ArgValue::DisplayStr(s) => pad_output(v, s@),
        ArgValue::DebugStr(s) => debug_str_text(s@),
        ArgValue::DisplayBool(b) => pad_output(v, bool_text(b)),
        ArgValue::DebugBool(b) => pad_output(v, bool_text(b)),
        ArgValue::DisplayChar(c) => pad_output(v, seq![c]),
        ArgValue::DebugChar(c) => debug_char_text(c),
    }
}

/// The text of an argument: what it emits into a fresh formatter.
pub open spec fn arg_text(a: ArgValue) -> Seq<char> {
    arg_output(default_view(), a)
}

/// The first `k` pieces, each followed by the text of its argument.
pub open spec fn interleaved(pieces: Seq<&str>, args: Seq<ArgumentV1>, k: nat) -> Seq<char>
    decreases k,
{
    if k == 0 {
        Seq::empty()
    } else {
        interleaved(pieces, args, (k - 1) as nat) + pieces[k - 1]@ + arg_text(
            args[k - 1].value_view(),
        )
    }
}

/// The formatted text: the pieces interleaved with the texts of the
/// arguments, each argument after its piece, as far as both go; then the
/// piece after the last argument, if there is one.
pub open spec fn rendered(pieces: Seq<&str>, args: Seq<ArgumentV1>) -> Seq<char> {
    let n = if pieces.len() < args.len() {
        pieces.len()
    } else {
        args.len()
    };
    interleaved(pieces, args, n) + if n < pieces.len() {
        pieces[n as int]@
    } else {
        Seq::<char>::empty()
    }
}

/// The count a `Count` stands for, and where the next argument is looked
/// for afterwards: a `Param` reads the argument it names, a `NextParam` the
/// next argument (moving past it), and an argument that is not a count gives
/// no count.
pub open spec fn count_of(args: Seq<ArgumentV1>, c: rt::v1::Count, cur: nat) -> (Option<usize>, nat) {
    match c {
        rt::v1::Count::Is(n) => (Some(n), cur),
        rt::v1::Count::Implied => (None, cur),
        rt::v1::Count::Param(i) => (args[i as int].count_value(), cur),
        rt::v1::Count::NextParam => if cur < args.len() {
            (args[cur as int].count_value(), cur + 1)
        } else {
            (None, cur)
        },
    }
}

/// The width, the precision, the index of the argument a specification
/// formats, and where the next argument is looked for afterwards.
pub open spec fn spec_choices(args: Seq<ArgumentV1>, a: rt::v1::Argument, cur: nat) -> (
    Option<usize>,
    Option<usize>,
    nat,
    nat,
) {
    let (w, c1) = count_of(args, a.format.width, cur);
    let (p, c2) = count_of(args, a.format.precision, c1);
    match a.position {
        rt::v1::Position::Next => (w, p, c2, c2 + 1),
        rt::v1::Position::At(i) => (w, p, i as nat, c2),
    }
}

/// Whether a specification can be run: the arguments it names exist.
pub open spec fn spec_ok(args: Seq<ArgumentV1>, a: rt::v1::Argument, cur: nat) -> bool {
    &&& (a.format.width matches rt::v1::Count::Param(i) ==> i < args.len())
    &&& (a.format.precision matches rt::v1::Count::Param(i) ==> i < args.len())
    &&& spec_choices(args, a, cur).2 < args.len()
}

/// The options a specification sets.
pub open spec fn spec_options(args: Seq<ArgumentV1>, a: rt::v1::Argument, cur: nat) -> FormatterView {
    FormatterView {
        flags: a.format.flags,
        fill: a.format.fill,
        align: a.format.align,
        width: spec_choices(args, a, cur).0,
        precision: spec_choices(args, a, cur).1,
        out: Seq::empty(),
    }
}

/// What running a specification emits: its argument formatted with the
/// options it sets.
pub open spec fn spec_text(args: Seq<ArgumentV1>, a: rt::v1::Argument, cur: nat) -> Seq<char> {
    arg_output(spec_options(args, a, cur), args[spec_choices(args, a, cur).2 as int].value_view())
}

/// Where the next argument is looked for after the first `k`
/// specifications have run.
pub open spec fn cursor_after(args: Seq<ArgumentV1>, specs: Seq<rt::v1::Argument>, k: nat) -> nat
    decreases k,
{
    if k == 0 {
        0
    } else {
        spec_choices(args, specs[k - 1], cursor_after(args, specs, (k - 1) as nat)).3
    }
}

/// Whether the first `k` specifications can be run.
pub open spec fn specs_ok(args: Seq<ArgumentV1>, specs: Seq<rt::v1::Argument>, k: nat) -> bool {
    forall|j: nat| j < k ==> #[trigger] spec_ok(args, specs[j as int], cursor_after(args, specs, j))
}

/// The first `k` pieces, each followed by what its specification emits.
pub open spec fn interleaved_specs(
    pieces: Seq<&str>,
    args: Seq<ArgumentV1>,
    specs: Seq<rt::v1::Argument>,
    k: nat,
) -> Seq<char>
    decreases k,
{
    if k == 0 {
        Seq::empty()
    } else {
        interleaved_specs(pieces, args, specs, (k - 1) as nat) + pieces[k - 1]@ + spec_text(
            args,
            specs[k - 1],
            cursor_after(args, specs, (k - 1) as nat),
        )
    }
}

/// How many specifications run: as many as there are, and pieces for.
pub open spec fn specs_run(pieces: Seq<&str>, specs: Seq<rt::v1::Argument>) -> nat {
    if pieces.len() < specs.len() {
        pieces.len()
    } else {
        specs.len()
    }
}

/// The formatted text under specifications: the pieces interleaved with
/// what the specifications emit, as far as both go; then the piece after
/// the last one run, if there is one.
pub open spec fn rendered_specs(
    pieces: Seq<&str>,
    args: Seq<ArgumentV1>,
    specs: Seq<rt::v1::Argument>,
) -> Seq<char> {
    let n = specs_run(pieces, specs);
    interleaved_specs(pieces, args, specs, n) + if n < pieces.len() {
        pieces[n as int]@
    } else {
        Seq::<char>::empty()
    }
}

/// The decimal digits of `n`, appended to `s`.
fn push_decimal(n: usize, s: &mut String)
    ensures
        final(s)@ == old(s)@ + decimal(n as nat),
    decreases n,
{
    if n >= 10 {
        push_decimal(n / 10, s);
    }
    let d = (n % 10) as u8;
    let c = (d + 48u8) as char;
    assert(c == digit_char((n % 10) as nat));
    string_push(s, c);
}

/// Decimal digits are ASCII, and there are at most `1 + n / 10` of them.
proof fn lemma_decimal_ascii(n: nat)
    ensures
        vstd::utf8::is_ascii_chars(decimal(n)),
        decimal(n).len() <= 1 + n / 10,
    decreases n,
{
    if n >= 10 {
        lemma_decimal_ascii(n / 10);
        let m = n / 10;
        assert(m / 10 + 1 <= m || m < 10) by (nonlinear_arith)
            requires
                m >= 1,
        ;
        if m < 10 {
            assert(decimal(m).len() == 1);
        }
    }
}

impl<'a> ArgumentV1<'a> {
    /// What the argument holds and how it is formatted.
    pub closed spec fn value_view(self) -> ArgValue<'a> {
        self.value
    }

    /// The value of the argument when it is a count.
    pub open spec fn count_value(self) -> Option<usize> {
        match self.value_view() {
            ArgValue::Count(n) => Some(n),
            _ => None,
        }
    }

    /// An argument that formats `value` as it says.
    pub fn new(value: ArgValue<'a>) -> (r: ArgumentV1<'a>)
        ensures
            r.value_view() == value,
    {
        ArgumentV1 { value }
    }

    /// Shows a count in decimal, padded as an integer is.
    fn show_usize(x: &usize, f: &mut Formatter) -> (r: Result)
        ensures
            final(f)@ == old(f)@.appended(arg_output(old(f)@, ArgValue::Count(*x))),
            r is Ok,
    {
        let mut digits = String::new();
        push_decimal(*x, &mut digits);
        let buf = digits.as_str();
        proof {
            lemma_decimal_ascii(*x as nat);
            assert(buf@ =~= decimal(*x as nat));
            vstd::string::is_ascii_spec_bytes(buf);
            reveal_strlit("");
        }
        f.pad_integral(true, "", buf)
    }

    /// An argument that carries a count.
    pub fn from_usize(x: &usize) -> (r: ArgumentV1)
        ensures
            r.value_view() == ArgValue::Count(*x),
            r.count_value() == Some(*x),
    {
        ArgumentV1 { value: ArgValue::Count(*x) }
    }

    /// The value of the argument, if it is a count.
    pub fn as_usize(&self) -> (r: Option<usize>)
        ensures
            r == self.count_value(),
    {
        match self.value {
            ArgValue::Count(x) => Some(x),
            _ => None,
        }
    }

    /// Formats the argument into `f`.
    fn format(&self, f: &mut Formatter) -> (r: Result)
        ensures
            final(f)@ == old(f)@.appended(arg_output(old(f)@, self.value_view())),
            r is Ok,
    {
        match self.value {
            ArgValue::Count(n) => ArgumentV1::show_usize(&n, f),
            ArgValue::DisplayStr(s) => Display::fmt(s, f),
            ArgValue::DebugStr(s) => Debug::fmt(s, f),
            ArgValue::DisplayBool(b) => Display::fmt(&b, f),
            ArgValue::DebugBool(b) => Debug::fmt(&b, f),
            ArgValue::DisplayChar(c) => Display::fmt(&c, f),
            ArgValue::DebugChar(c) => Debug::fmt(&c, f),
        }
    }
}

/// A precompiled format string and its arguments.
#[derive(Copy, Clone)]
pub struct Arguments<'a> {
    // Format string pieces to print.
    pieces: &'a [&'a str],
    // Placeholder specs, or `None` if all specs are default (as in "{}{}").
    fmt: Option<&'a [rt::v1::Argument]>,
    // Dynamic arguments for interpolation, to be interleaved with string
    // pieces. (Every argument is preceded by a string piece.)
    args: &'a [ArgumentV1<'a>],
}

/// Total length in bytes of the pieces.
pub open spec fn pieces_len(pieces: Seq<&str>) -> nat
    decreases pieces.len(),
{
    if pieces.len() == 0 {
        0
    } else {
        pieces_len(pieces.drop_last()) + pieces.last().spec_bytes().len()
    }
}

/// The estimated length of the formatted text: the length of the pieces
/// when there are no arguments; otherwise nothing when the text starts with
/// an argument and the pieces are short, else twice the length of the
/// pieces, or nothing when that does not fit in a `usize`.
pub open spec fn capacity_estimate(pieces: Seq<&str>, no_args: bool) -> nat {
    let n = pieces_len(pieces);
    if no_args {
        n
    } else if pieces[0]@.len() == 0 && n < 16 {
        0
    } else if 2 * n <= usize::MAX {
        2 * n
    } else {
        0
    }
}

impl<'a> Arguments<'a> {
    /// The format string pieces.
    pub closed spec fn pieces_view(self) -> Seq<&'a str> {
        self.pieces@
    }

    /// The arguments.
    pub closed spec fn args_view(self) -> Seq<ArgumentV1<'a>> {
        self.args@
    }

    /// The placeholder specifications, if any.
    pub closed spec fn fmt_view(self) -> Option<Seq<rt::v1::Argument>> {
        match self.fmt {
            Some(f) => Some(f@),
            None => None,
        }
    }

    /// Every specification that runs names arguments that exist.
    #[verifier::type_invariant]
    closed spec fn runnable(self) -> bool {
        match self.fmt {
            Some(f) => specs_ok(self.args@, f@, specs_run(self.pieces@, f@)),
            None => true,
        }
    }

    /// The formatted text.
    pub open spec fn text(self) -> Seq<char> {
        match self.fmt_view() {
            Some(specs) => rendered_specs(self.pieces_view(), self.args_view(), specs),
            None => rendered(self.pieces_view(), self.args_view()),
        }
    }

    /// Builds the `Arguments` structure from the pieces and the arguments.
    pub fn new_v1(pieces: &'a [&'a str], args: &'a [ArgumentV1<'a>]) -> (r: Arguments<'a>)
        ensures
            r.pieces_view() == pieces@,
            r.args_view() == args@,
            r.fmt_view() is None,
    {
        Arguments { pieces: pieces, fmt: None, args: args }
    }

    /// This function is used to specify nonstandard formatting parameters.
    /// Every specification that runs (one per piece, as far as both go)
    /// must name arguments that exist; a count taken from an argument that
    /// is not a count is ignored.
    pub fn new_v1_formatted(
        pieces: &'a [&'a str],
        args: &'a [ArgumentV1<'a>],
        fmt: &'a [rt::v1::Argument],
    ) -> (r: Arguments<'a>)
        requires
            specs_ok(args@, fmt@, specs_run(pieces@, fmt@)),
        ensures
            r.pieces_view() == pieces@,
            r.args_view() == args@,
            r.fmt_view() == Some(fmt@),
    {
        Arguments { pieces: pieces, fmt: Some(fmt), args: args }
    }

    /// Estimates the length of the formatted text.
    ///
    /// This is intended to be used for setting initial `String` capacity
    /// when using `format!`. Note: this is neither the lower nor upper bound.
    pub fn estimated_capacity(&self) -> (r: usize)
        requires
            pieces_len(self.pieces_view()) <= usize::MAX,
            self.args_view().len() > 0 ==> self.pieces_view().len() > 0,
        ensures
            r == capacity_estimate(self.pieces_view(), self.args_view().len() == 0),
    {
        let mut pieces_length: usize = 0;
        let mut i: usize = 0;
        while i < self.pieces.len()
            invariant
                0 <= i <= self.pieces@.len(),
                pieces_length == pieces_len(self.pieces@.take(i as int)),
                pieces_len(self.pieces@) <= usize::MAX,
            decreases self.pieces@.len() - i,
        {
            assert(self.pieces@.take(i + 1).drop_last() =~= self.pieces@.take(i as int));
            proof {
                lemma_pieces_len_prefix(self.pieces@, i + 1);
            }
            pieces_length = pieces_length + self.pieces[i].len();
            i = i + 1;
        }
        assert(self.pieces@.take(self.pieces@.len() as int) =~= self.pieces@);
        if self.args.is_empty() {
            pieces_length
        } else if self.pieces[0].is_empty() && pieces_length < 16 {
            // If the format string starts with an argument,
            // don't preallocate anything, unless length
            // of pieces is significant.
            0
        } else {
            // There are some arguments, so any additional push
            // will reallocate the string. To avoid that,
            // we're "pre-doubling" the capacity here.
            pieces_length.checked_mul(2).unwrap_or(0)
        }
    }
}

/// The length of a prefix of the pieces is at most that of all of them.
pub proof fn lemma_pieces_len_prefix(pieces: Seq<&str>, k: int)
    requires
        0 <= k <= pieces.len(),
    ensures
        pieces_len(pieces.take(k)) <= pieces_len(pieces),
    decreases pieces.len() - k,
{
    if k < pieces.len() {
        lemma_pieces_len_prefix(pieces, k + 1);
        assert(pieces.take(k + 1).drop_last() =~= pieces.take(k));
    } else {
        assert(pieces.take(k) =~= pieces);
    }
}

/// The `write` function takes an output stream and a precompiled format
/// string with its arguments, and writes the formatted text to the output:
/// the pieces, each followed by its argument formatted as the argument asks,
/// then the piece after the last argument.
pub fn write<W: Write>(output: &mut W, args: Arguments) -> (r: Result)
    ensures
        W::write_str_post(&*old(output), &*final(output), args.text(), r),
{
    let text = render(&args);
    output.write_str(text.as_str())
}

/// The formatted text of `args`, made in a fresh formatter.
fn render(args: &Arguments) -> (r: String)
    ensures
        r@ == args.text(),
{
    proof {
        use_type_invariant(args);
    }
    let mut f = Formatter::new(' ', rt::v1::Alignment::Unknown, 0, None, None);
    match args.fmt {
        None => {
            let n = if args.pieces.len() < args.args.len() {
                args.pieces.len()
            } else {
                args.args.len()
            };
            let mut i: usize = 0;
            while i < n
                invariant
                    0 <= i <= n,
                    n <= args.pieces@.len(),
                    n <= args.args@.len(),
                    f@ == default_view().appended(
                        interleaved(args.pieces_view(), args.args_view(), i as nat),
                    ),
                decreases n - i,
            {
                let ghost before = f@;
                f.write_str(args.pieces[i]);
                let a = args.args[i];
                a.format(&mut f);
                proof {
                    let piece = args.pieces@[i as int]@;
                    let t = arg_text(a.value_view());
                    assert(arg_output(before.appended(piece), a.value_view()) == t);
                    default_view().lemma_appended_twice(
                        interleaved(args.pieces_view(), args.args_view(), i as nat),
                        piece,
                    );
                    default_view().lemma_appended_twice(
                        interleaved(args.pieces_view(), args.args_view(), i as nat) + piece,
                        t,
                    );
                }
                i = i + 1;
            }
            if n < args.pieces.len() {
                f.write_str(args.pieces[n]);
                proof {
                    default_view().lemma_appended_twice(
                        interleaved(args.pieces_view(), args.args_view(), n as nat),
                        args.pieces@[n as int]@,
                    );
                }
            }
            assert(f@.out =~= args.text());
        },
        Some(specs) => {
            let n = if args.pieces.len() < specs.len() {
                args.pieces.len()
            } else {
                specs.len()
            };
            let mut cur: usize = 0;
            let mut i: usize = 0;
            while i < n
                invariant
                    0 <= i <= n,
                    n == specs_run(args.pieces@, specs@),
                    n <= args.pieces@.len(),
                    n <= specs@.len(),
                    specs_ok(args.args@, specs@, n as nat),
                    cur == cursor_after(args.args@, specs@, i as nat),
                    cur <= args.args@.len(),
                    f@.out == interleaved_specs(args.pieces@, args.args@, specs@, i as nat),
                decreases n - i,
            {
                f.write_str(args.pieces[i]);
                assert(spec_ok(args.args@, specs@[i as int], cursor_after(args.args@, specs@, i as nat)));
                f.run(&specs[i], args.args, &mut cur);
                assert(f@.out =~= interleaved_specs(args.pieces@, args.args@, specs@, (i + 1) as nat));
                i = i + 1;
            }
            if n < args.pieces.len() {
                f.write_str(args.pieces[n]);
            }
            assert(f@.out =~= args.text());
        },
    }
    f.buf
}

} // verus!
