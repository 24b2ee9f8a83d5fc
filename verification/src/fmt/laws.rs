//! Properties that hold of everything a formatter emits.

use super::{
    alternate_bit, flag_set, integral_head, pad_integral_output, pad_output, padded, post_pad,
    pre_pad, repeat, sign_minus_bit, sign_plus_bit, truncated, zero_pad_bit, escaped_char,
    escaped_str, debug_char_text, debug_str_text, escape_debug_of, capacity_estimate, pieces_len,
    count_of, spec_choices, cursor_after, interleaved, interleaved_specs, rendered, rendered_specs,
    arg_text, bool_text, decimal, digit_char, ArgValue, ArgumentV1, Arguments, Formatter, FormatterView, Result,
    Write,
};
use super::rt::v1::{Alignment, Argument, Count, Position};
use vstd::prelude::*;
use vstd::string::StringSliceAdditionalSpecFns;

verus! {

/// Without a width and a precision, `pad` emits the string unchanged.
pub proof fn lemma_pad_without_options(v: FormatterView, s: Seq<char>)
    requires
        v.width is None,
        v.precision is None,
    ensures
        pad_output(v, s) == s,
{
}

/// The fill characters before and after the contents add up to the padding;
/// centered contents get the smaller half before them.
pub proof fn lemma_padding_split(align: Alignment, default: Alignment, padding: nat)
    ensures
        pre_pad(align, default, padding) + post_pad(align, default, padding) == padding,
        (align == Alignment::Center) ==> (pre_pad(align, default, padding) <= post_pad(
            align,
            default,
            padding,
        ) <= pre_pad(align, default, padding) + 1),
{
}

/// Padding makes contents exactly as long as they plus the padding, and
/// leaves them in the middle, unchanged.
pub proof fn lemma_padded_shape(
    fill: char,
    align: Alignment,
    default: Alignment,
    padding: nat,
    content: Seq<char>,
)
    ensures
        padded(fill, align, default, padding, content).len() == content.len() + padding,
        padded(fill, align, default, padding, content).subrange(
            pre_pad(align, default, padding) as int,
            (pre_pad(align, default, padding) + content.len()) as int,
        ) == content,
        forall|i: int|
            0 <= i < pre_pad(align, default, padding) ==> #[trigger] padded(
                fill,
                align,
                default,
                padding,
                content,
            )[i] == fill,
        forall|i: int|
            pre_pad(align, default, padding) + content.len() <= i < content.len() + padding
                ==> #[trigger] padded(fill, align, default, padding, content)[i] == fill,
{
    lemma_padding_split(align, default, padding);
    let p = padded(fill, align, default, padding, content);
    let pre = pre_pad(align, default, padding);
    assert(p.subrange(pre as int, (pre + content.len()) as int) =~= content);
}

/// The precision keeps at most that many characters, from the start of the
/// string.
pub proof fn lemma_truncated_prefix(s: Seq<char>, precision: Option<usize>)
    ensures
        s.take(truncated(s, precision).len() as int) == truncated(s, precision),
        truncated(s, precision).len() <= s.len(),
        precision matches Some(p) ==> truncated(s, precision).len() <= p,
{
    assert(s.take(s.len() as int) =~= s);
}

/// What `pad` emits is as long as the width asks, or as the (possibly
/// truncated) string when that is longer.
pub proof fn lemma_pad_len(v: FormatterView, s: Seq<char>)
    ensures
        pad_output(v, s).len() == match v.width {
            Some(w) => if truncated(s, v.precision).len() < w {
                w as nat
            } else {
                truncated(s, v.precision).len()
            },
            None => truncated(s, v.precision).len(),
        },
{
    let t = truncated(s, v.precision);
    match v.width {
        Some(w) => if t.len() < w {
            lemma_padded_shape(v.fill, v.align, Alignment::Left, (w - t.len()) as nat, t);
        },
        None => {},
    }
}

/// For digits that are one byte each, what `pad_integral` emits is as long as
/// the width asks, or as the sign, prefix and digits when those are longer.
pub proof fn lemma_pad_integral_len(
    v: FormatterView,
    is_nonnegative: bool,
    prefix: Seq<char>,
    buf: Seq<char>,
)
    ensures
        ({
            let natural = integral_head(v, is_nonnegative, prefix).len() + buf.len();
            pad_integral_output(v, is_nonnegative, prefix, buf, buf.len()).len() == match v.width {
                Some(min) => if natural < min {
                    min as nat
                } else {
                    natural
                },
                None => natural,
            }
        }),
{
    let head = integral_head(v, is_nonnegative, prefix);
    let width = buf.len() + head.len();
    match v.width {
        Some(min) => if width < min {
            if !flag_set(v.flags, zero_pad_bit()) {
                lemma_padded_shape(
                    v.fill,
                    v.align,
                    Alignment::Right,
                    (min - width) as nat,
                    head + buf,
                );
            }
        },
        None => {},
    }
}

/// With the `0` flag, the sign and prefix come first and the zeros go
/// between them and the digits, whatever the fill and alignment.
pub proof fn lemma_zero_pad_sign_first(
    v: FormatterView,
    is_nonnegative: bool,
    prefix: Seq<char>,
    buf: Seq<char>,
    buf_bytes: nat,
)
    requires
        flag_set(v.flags, zero_pad_bit()),
        v.width matches Some(min) && buf_bytes + integral_head(v, is_nonnegative, prefix).len()
            < min,
    ensures
        ({
            let head = integral_head(v, is_nonnegative, prefix);
            let out = pad_integral_output(v, is_nonnegative, prefix, buf, buf_bytes);
            &&& out.take(head.len() as int) == head
            &&& out.skip(out.len() - buf.len()) == buf
            &&& forall|i: int|
                head.len() <= i < out.len() - buf.len() ==> #[trigger] out[i] == '0'
        }),
{
    let head = integral_head(v, is_nonnegative, prefix);
    let out = pad_integral_output(v, is_nonnegative, prefix, buf, buf_bytes);
    let min = v.width->0;
    let zeros = repeat('0', (min - (buf_bytes + head.len())) as nat);
    assert(out == head + zeros + buf);
    assert(out.take(head.len() as int) =~= head);
    assert(out.skip(out.len() - buf.len()) =~= buf);
    assert forall|i: int| head.len() <= i < out.len() - buf.len() implies #[trigger] out[i]
        == '0' by {
        assert(out[i] == zeros[i - head.len()]);
    }
}

/// A negative number always shows a minus sign first; a nonnegative one shows
/// a plus sign first exactly when the `+` flag is set.
pub proof fn lemma_integral_sign(v: FormatterView, is_nonnegative: bool, prefix: Seq<char>)
    ensures
        !is_nonnegative ==> integral_head(v, is_nonnegative, prefix)[0] == '-',
        is_nonnegative && flag_set(v.flags, sign_plus_bit()) ==> integral_head(
            v,
            is_nonnegative,
            prefix,
        )[0] == '+',
        is_nonnegative && !flag_set(v.flags, sign_plus_bit()) ==> integral_head(
            v,
            is_nonnegative,
            prefix,
        ) == if flag_set(v.flags, alternate_bit()) {
            prefix
        } else {
            Seq::<char>::empty()
        },
{
    let e = Seq::<char>::empty();
    assert(e + prefix =~= prefix);
    assert(e + e =~= e);
}

/// The four flags are four distinct bits: a flags word with only one of them
/// set answers yes for that flag and no for the others.
pub proof fn lemma_flags_distinct(i: u32, j: u32)
    requires
        i < 4,
        j < 4,
    ensures
        flag_set(1u32 << i, j) <==> i == j,
{
    assert(i < 4 && j < 4 ==> ((1u32 << i) & (1u32 << j) != 0 <==> i == j)) by (bit_vector);
}

/// The four flags are bits 0 to 3, in the order `+`, `-`, `#`, `0`.
pub proof fn lemma_flag_bits()
    ensures
        sign_plus_bit() == 0,
        sign_minus_bit() == 1,
        alternate_bit() == 2,
        zero_pad_bit() == 3,
{
}

/// The debug text of a concatenation is the concatenation of the debug
/// texts: each character is escaped on its own.
pub proof fn lemma_escaped_concat(a: Seq<char>, b: Seq<char>)
    ensures
        escaped_str(a + b) == escaped_str(a) + escaped_str(b),
    decreases b.len(),
{
    if b.len() == 0 {
        assert(a + b =~= a);
        assert(escaped_str(a) + Seq::<char>::empty() =~= escaped_str(a));
    } else {
        assert((a + b).drop_last() =~= a + b.drop_last());
        lemma_escaped_concat(a, b.drop_last());
        assert(escaped_str(a) + escaped_str(b.drop_last()) + escaped_char(b.last())
            =~= escaped_str(a) + (escaped_str(b.drop_last()) + escaped_char(b.last())));
    }
}

/// Emitting `a` and then `b` is emitting `a + b`, and neither changes the
/// formatting options.
pub proof fn lemma_emit_sequence(v: FormatterView, a: Seq<char>, b: Seq<char>)
    ensures
        v.appended(a).appended(b) == v.appended(a + b),
        v.appended(a).flags == v.flags,
        v.appended(a).fill == v.fill,
        v.appended(a).align == v.align,
        v.appended(a).width == v.width,
        v.appended(a).precision == v.precision,
        v.appended(a).out.take(v.out.len() as int) == v.out,
{
    v.lemma_appended_twice(a, b);
    assert(v.appended(a).out.take(v.out.len() as int) =~= v.out);
}

/// The fill character is what pads: whenever `pad` pads, every character
/// it emits outside the (possibly truncated) string is the formatter's fill.
pub proof fn lemma_pad_pads_with_fill(v: FormatterView, s: Seq<char>)
    ensures
        ({
            let t = truncated(s, v.precision);
            let out = pad_output(v, s);
            v.width is Some && t.len() < v.width->0 ==> {
                let w = v.width->0;
                let p = pre_pad(v.align, Alignment::Left, (w - t.len()) as nat);
                &&& out.len() == w
                &&& out.subrange(p as int, (p + t.len()) as int) == t
                &&& forall|i: int|
                    0 <= i < out.len() && !(p <= i < p + t.len()) ==> #[trigger] out[i] == v.fill
            }
        }),
{
    let t = truncated(s, v.precision);
    if let Some(w) = v.width {
        if t.len() < w {
            lemma_padded_shape(v.fill, v.align, Alignment::Left, (w - t.len()) as nat, t);
        }
    }
}

/// The same holds of integers padded without the `0` flag: every character
/// outside the sign, prefix and digits is the formatter's fill.
pub proof fn lemma_pad_integral_pads_with_fill(
    v: FormatterView,
    is_nonnegative: bool,
    prefix: Seq<char>,
    buf: Seq<char>,
    buf_bytes: nat,
)
    requires
        !flag_set(v.flags, zero_pad_bit()),
    ensures
        ({
            let head = integral_head(v, is_nonnegative, prefix);
            let width = buf_bytes + head.len();
            let out = pad_integral_output(v, is_nonnegative, prefix, buf, buf_bytes);
            v.width is Some && width < v.width->0 ==> {
                let min = v.width->0;
                let p = pre_pad(v.align, Alignment::Right, (min - width) as nat);
                &&& out.subrange(p as int, (p + head.len() + buf.len()) as int) == head + buf
                &&& forall|i: int|
                    0 <= i < out.len() && !(p <= i < p + head.len() + buf.len()) ==> #[trigger] out[i]
                        == v.fill
            }
        }),
{
    let head = integral_head(v, is_nonnegative, prefix);
    let width = buf_bytes + head.len();
    if let Some(min) = v.width {
        if width < min {
            lemma_padded_shape(v.fill, v.align, Alignment::Right, (min - width) as nat, head + buf);
        }
    }
}

/// `write_fmt` on a formatter gives the same result as `write` into it:
/// both hand the formatted text to one `write_str`, so any two outcomes that
/// their contracts allow from the same formatter agree on what was emitted,
/// on the options and on the result.
pub proof fn lemma_write_fmt_as_write(
    pre: Formatter,
    by_write_fmt: Formatter,
    by_write: Formatter,
    args: Arguments,
    r_write_fmt: Result,
    r_write: Result,
)
    requires
        <Formatter as Write>::write_str_post(&pre, &by_write_fmt, args.text(), r_write_fmt),
        <Formatter as Write>::write_str_post(&pre, &by_write, args.text(), r_write),
    ensures
        by_write_fmt@ == by_write@,
        r_write_fmt == r_write,
{
    match r_write_fmt {
        Ok(u) => match r_write {
            Ok(w) => {
                assert(u == w);
            },
            Err(_) => {},
        },
        Err(_) => {},
    }
}

/// With the `#` flag the whole prefix follows the sign, whether or not a
/// sign is shown: the head is the sign (`-` for negatives, `+` for
/// nonnegatives under `+`, else nothing) and then every character of the
/// prefix; without the flag it is the sign alone.
pub proof fn lemma_alternate_keeps_prefix(v: FormatterView, is_nonnegative: bool, prefix: Seq<char>)
    ensures
        ({
            let head = integral_head(v, is_nonnegative, prefix);
            let signed = !is_nonnegative || flag_set(v.flags, sign_plus_bit());
            let sign_len: int = if signed { 1 } else { 0 };
            &&& head.len() == sign_len + if flag_set(v.flags, alternate_bit()) {
                prefix.len() as int
            } else {
                0
            }
            &&& signed ==> head[0] == (if is_nonnegative { '+' } else { '-' })
            &&& flag_set(v.flags, alternate_bit()) ==> head.skip(sign_len) == prefix
            &&& !flag_set(v.flags, alternate_bit()) ==> head.skip(sign_len).len() == 0
        }),
{
    let head = integral_head(v, is_nonnegative, prefix);
    let signed = !is_nonnegative || flag_set(v.flags, sign_plus_bit());
    let sign_len: int = if signed { 1 } else { 0 };
    if flag_set(v.flags, alternate_bit()) {
        assert(head.skip(sign_len) =~= prefix);
    }
}

/// Without a width, `pad_integral` emits the sign, then the prefix when the
/// `#` flag is set, then the digits, and nothing else.
pub proof fn lemma_pad_integral_without_width(
    v: FormatterView,
    is_nonnegative: bool,
    prefix: Seq<char>,
    buf: Seq<char>,
    buf_bytes: nat,
)
    requires
        v.width is None,
    ensures
        ({
            let out = pad_integral_output(v, is_nonnegative, prefix, buf, buf_bytes);
            let signed = !is_nonnegative || flag_set(v.flags, sign_plus_bit());
            let sign_len: int = if signed { 1 } else { 0 };
            let shown: Seq<char> = if flag_set(v.flags, alternate_bit()) {
                prefix
            } else {
                Seq::empty()
            };
            &&& out.len() == sign_len + shown.len() + buf.len()
            &&& signed ==> out[0] == (if is_nonnegative { '+' } else { '-' })
            &&& out.subrange(sign_len, sign_len + shown.len()) == shown
            &&& out.skip(sign_len + shown.len()) == buf
        }),
{
    lemma_alternate_keeps_prefix(v, is_nonnegative, prefix);
    let head = integral_head(v, is_nonnegative, prefix);
    let out = pad_integral_output(v, is_nonnegative, prefix, buf, buf_bytes);
    let signed = !is_nonnegative || flag_set(v.flags, sign_plus_bit());
    let sign_len: int = if signed { 1 } else { 0 };
    let shown: Seq<char> = if flag_set(v.flags, alternate_bit()) {
        prefix
    } else {
        Seq::empty()
    };
    assert(head.skip(sign_len) =~= shown);
    assert(out == head + buf);
    assert(out.subrange(sign_len, sign_len + shown.len()) =~= head.skip(sign_len));
    assert(out.skip(sign_len + shown.len()) =~= buf);
}

/// Whether a specification takes its width or its precision from the next
/// argument.
pub open spec fn reads_next_count(a: Argument) -> bool {
    a.format.width is NextParam || a.format.precision is NextParam
}

/// How many of the first `k` specifications format the next argument
/// (`{}`) rather than one named by its position (`{i}`).
pub open spec fn implicit_count(specs: Seq<Argument>, k: nat) -> nat
    decreases k,
{
    if k == 0 {
        0
    } else {
        implicit_count(specs, (k - 1) as nat) + if specs[k - 1].position is Next {
            1nat
        } else {
            0nat
        }
    }
}

/// A specification with an explicit position formats the argument at that
/// position and leaves the next-argument cursor where its width and
/// precision left it; one without formats the argument under the cursor and
/// moves the cursor one past it. Counts given outright, or taken from a
/// named argument, do not move the cursor.
pub proof fn lemma_position_and_cursor(args: Seq<ArgumentV1>, a: Argument, cur: nat)
    ensures
        ({
            let after_counts = count_of(
                args,
                a.format.precision,
                count_of(args, a.format.width, cur).1,
            ).1;
            let c = spec_choices(args, a, cur);
            &&& a.position matches Position::At(i) ==> c.2 == i && c.3 == after_counts
            &&& a.position is Next ==> c.2 == after_counts && c.3 == after_counts + 1
            &&& !reads_next_count(a) ==> after_counts == cur
        }),
{
}

/// When no specification reads a count from the next argument, the cursor
/// after the first `k` specifications stands at the number of them that
/// format the next argument: explicit positions (`{1}`) do not use up
/// arguments for the `{}` that follow.
pub proof fn lemma_cursor_counts_implicit(
    args: Seq<ArgumentV1>,
    specs: Seq<Argument>,
    k: nat,
)
    requires
        k <= specs.len(),
        forall|j: int| 0 <= j < k ==> !#[trigger] reads_next_count(specs[j]),
    ensures
        cursor_after(args, specs, k) == implicit_count(specs, k),
    decreases k,
{
    if k > 0 {
        lemma_cursor_counts_implicit(args, specs, (k - 1) as nat);
        assert(!reads_next_count(specs[k - 1]));
        lemma_position_and_cursor(args, specs[k - 1], cursor_after(args, specs, (k - 1) as nat));
    }
}

/// Hence a `{}` formats the argument right after those that the `{}`
/// before it formatted, however many `{i}` stand between them: the
/// specification at index `k` formats argument `implicit_count(specs, k)`.
pub proof fn lemma_next_after_explicit(args: Seq<ArgumentV1>, specs: Seq<Argument>, k: nat)
    requires
        k < specs.len(),
        specs[k as int].position is Next,
        forall|j: int| 0 <= j <= k ==> !#[trigger] reads_next_count(specs[j]),
    ensures
        spec_choices(args, specs[k as int], cursor_after(args, specs, k)).2 == implicit_count(
            specs,
            k,
        ),
{
    lemma_cursor_counts_implicit(args, specs, k);
    assert(!reads_next_count(specs[k as int]));
    lemma_position_and_cursor(args, specs[k as int], cursor_after(args, specs, k));
}

/// Inside the debug text of a string, a character whose escape sequence is
/// longer than one character is replaced by that whole sequence; one whose
/// escape sequence is a single character appears as itself.
pub proof fn lemma_escaped_char_cases(c: char)
    ensures
        escape_debug_of(c).len() != 1 ==> escaped_char(c) == escape_debug_of(c),
        escape_debug_of(c).len() == 1 ==> escaped_char(c) == seq![c],
{
}

/// The debug text of a string is the escaped characters between double
/// quotes.
pub proof fn lemma_debug_str_shape(s: Seq<char>)
    ensures
        ({
            let t = debug_str_text(s);
            &&& t.len() == escaped_str(s).len() + 2
            &&& t[0] == '"'
            &&& t[t.len() - 1] == '"'
            &&& t.subrange(1, t.len() - 1) == escaped_str(s)
        }),
{
    let t = debug_str_text(s);
    assert(t.subrange(1, t.len() - 1) =~= escaped_str(s));
}

/// A string of one character shows, between the quotes, exactly what
/// `escaped_char` shows of that character.
pub proof fn lemma_escaped_str_single(c: char)
    ensures
        escaped_str(seq![c]) == escaped_char(c),
{
    let one = seq![c];
    assert(one.drop_last() =~= Seq::<char>::empty());
    assert(one.last() == c);
    assert(escaped_str(Seq::<char>::empty()) == Seq::<char>::empty());
    assert(Seq::<char>::empty() + escaped_char(c) =~= escaped_char(c));
}

/// A string whose characters all need no escaping shows as itself between
/// the quotes.
pub proof fn lemma_escaped_str_plain(s: Seq<char>)
    requires
        forall|i: int| 0 <= i < s.len() ==> #[trigger] escape_debug_of(s[i]).len() == 1,
    ensures
        escaped_str(s) == s,
    decreases s.len(),
{
    if s.len() > 0 {
        let init = s.drop_last();
        assert forall|i: int| 0 <= i < init.len() implies #[trigger] escape_debug_of(init[i]).len()
            == 1 by {
            assert(init[i] == s[i]);
        }
        lemma_escaped_str_plain(init);
        assert(escape_debug_of(s[s.len() - 1]).len() == 1);
        assert(init + seq![s.last()] =~= s);
    }
}

/// The debug text of a character is a single quote, then every character of
/// its escape sequence, then a single quote; a character that a string's
/// debug text escapes is shown there by the same sequence.
pub proof fn lemma_debug_char_shape(c: char)
    ensures
        ({
            let t = debug_char_text(c);
            let esc = escape_debug_of(c);
            &&& t.len() == esc.len() + 2
            &&& t[0] == '\''
            &&& t[t.len() - 1] == '\''
            &&& t.subrange(1, t.len() - 1) == esc
            &&& esc.len() != 1 ==> escaped_str(seq![c]) == t.subrange(1, t.len() - 1)
        }),
{
    let t = debug_char_text(c);
    let esc = escape_debug_of(c);
    assert(t.subrange(1, t.len() - 1) =~= esc);
    lemma_escaped_str_single(c);
}

/// The length of the pieces adds up: that of two runs of pieces one after
/// the other is the sum of theirs, and that of one piece is its length in
/// bytes.
pub proof fn lemma_pieces_len_concat(p: Seq<&str>, q: Seq<&str>)
    ensures
        pieces_len(p + q) == pieces_len(p) + pieces_len(q),
        q.len() == 1 ==> pieces_len(q) == q[0].spec_bytes().len(),
    decreases q.len(),
{
    if q.len() == 0 {
        assert(p + q =~= p);
    } else {
        assert((p + q).drop_last() =~= p + q.drop_last());
        lemma_pieces_len_concat(p, q.drop_last());
        if q.len() == 1 {
            assert(q.drop_last().len() == 0);
        }
    }
}

/// With no arguments the estimate is exactly the length of the pieces in
/// bytes, however long they are. With arguments it is twice that length
/// when the text does not start with an argument and the double fits in a
/// `usize`; it is nothing when the text starts with an argument and the
/// pieces are shorter than sixteen bytes.
pub proof fn lemma_capacity_estimate_cases(pieces: Seq<&str>)
    ensures
        capacity_estimate(pieces, true) == pieces_len(pieces),
        pieces.len() > 0 && pieces[0]@.len() > 0 && 2 * pieces_len(pieces) <= usize::MAX
            ==> capacity_estimate(pieces, false) == 2 * pieces_len(pieces),
        pieces.len() > 0 && pieces[0]@.len() == 0 && pieces_len(pieces) < 16
            ==> capacity_estimate(pieces, false) == 0,
        capacity_estimate(pieces, false) <= 2 * pieces_len(pieces),
{
}

/// A count given outright or taken from a named argument leaves the
/// next-argument cursor alone; one taken from the next argument moves it past
/// that argument, when there is one.
pub proof fn lemma_count_moves_cursor(args: Seq<ArgumentV1>, c: Count, cur: nat)
    ensures
        count_of(args, c, cur).1 == if c is NextParam && cur < args.len() {
            cur + 1
        } else {
            cur
        },
        c matches Count::Is(n) ==> count_of(args, c, cur).0 == Some(n),
        c is Implied ==> count_of(args, c, cur).0 is None,
        c matches Count::Param(i) ==> count_of(args, c, cur).0 == args[i as int].count_value(),
        c is NextParam && cur < args.len() ==> count_of(args, c, cur).0 == args[cur as int].count_value(),
{
}

/// A placeholder written `{}`: the next argument, with no options.
pub open spec fn plain_spec(a: Argument) -> bool {
    &&& a.position is Next
    &&& a.format.width is Implied
    &&& a.format.precision is Implied
    &&& a.format.flags == 0
    &&& a.format.fill == ' '
    &&& a.format.align == Alignment::Unknown
}

/// After `k` plain placeholders the cursor stands at `k`.
pub proof fn lemma_plain_cursor(args: Seq<ArgumentV1>, specs: Seq<Argument>, k: nat)
    requires
        k <= specs.len(),
        forall|j: int| 0 <= j < k ==> #[trigger] plain_spec(specs[j]),
    ensures
        cursor_after(args, specs, k) == k,
    decreases k,
{
    if k > 0 {
        lemma_plain_cursor(args, specs, (k - 1) as nat);
        assert(plain_spec(specs[k - 1]));
    }
}

/// Plain placeholders format their arguments exactly as a format string
/// without specifications does: one after the other, each as it shows in a
/// fresh formatter.
pub proof fn lemma_plain_specs_interleave(
    pieces: Seq<&str>,
    args: Seq<ArgumentV1>,
    specs: Seq<Argument>,
    k: nat,
)
    requires
        k <= specs.len(),
        k <= args.len(),
        forall|j: int| 0 <= j < k ==> #[trigger] plain_spec(specs[j]),
    ensures
        interleaved_specs(pieces, args, specs, k) == interleaved(pieces, args, k),
    decreases k,
{
    if k > 0 {
        lemma_plain_specs_interleave(pieces, args, specs, (k - 1) as nat);
        lemma_plain_cursor(args, specs, (k - 1) as nat);
        assert(plain_spec(specs[k - 1]));
    }
}

/// A format string whose placeholders are all `{}`, one per argument, gives
/// the same text with its specifications as without them.
pub proof fn lemma_plain_specs_render(
    pieces: Seq<&str>,
    args: Seq<ArgumentV1>,
    specs: Seq<Argument>,
)
    requires
        specs.len() == args.len(),
        forall|j: int| 0 <= j < specs.len() ==> #[trigger] plain_spec(specs[j]),
    ensures
        rendered_specs(pieces, args, specs) == rendered(pieces, args),
{
    let n = if pieces.len() < specs.len() {
        pieces.len()
    } else {
        specs.len()
    };
    lemma_plain_specs_interleave(pieces, args, specs, n);
}

/// In a fresh formatter an argument shows as its plain text: a string as
/// itself, a boolean as `true` or `false`, a character as itself, a count as
/// its decimal digits, and the `Debug` forms as their debug texts.
pub proof fn lemma_arg_text_fresh(a: ArgValue)
    ensures
        a matches ArgValue::DisplayStr(s) ==> arg_text(a) == s@,
        a matches ArgValue::DisplayBool(b) ==> arg_text(a) == bool_text(b),
        a matches ArgValue::DebugBool(b) ==> arg_text(a) == bool_text(b),
        a matches ArgValue::DisplayChar(c) ==> arg_text(a) == seq![c],
        a matches ArgValue::Count(n) ==> arg_text(a) == decimal(n as nat),
        a matches ArgValue::DebugStr(s) ==> arg_text(a) == debug_str_text(s@),
        a matches ArgValue::DebugChar(c) ==> arg_text(a) == debug_char_text(c),
{
    assert(forall|b: u32| b < 32 ==> #[trigger] (0u32 & (1u32 << b)) == 0) by (bit_vector);
    assert(!flag_set(0, sign_plus_bit()));
    assert(!flag_set(0, alternate_bit()));
    if let ArgValue::Count(n) = a {
        let d = decimal(n as nat);
        assert(Seq::<char>::empty() + Seq::<char>::empty() + d =~= d);
    }
}

/// The text of a format string with one argument between two pieces is the
/// first piece, the argument's text and the second piece.
pub proof fn lemma_rendered_one_argument(pieces: Seq<&str>, args: Seq<ArgumentV1>)
    requires
        pieces.len() == 2,
        args.len() == 1,
    ensures
        rendered(pieces, args) == pieces[0]@ + arg_text(args[0].value_view()) + pieces[1]@,
{
    assert(interleaved(pieces, args, 0) == Seq::<char>::empty());
    assert(Seq::<char>::empty() + pieces[0]@ =~= pieces[0]@);
}

/// The number that a string of decimal digits stands for, most significant
/// digit first.
pub open spec fn digits_value(s: Seq<char>) -> int
    decreases s.len(),
{
    if s.len() == 0 {
        0
    } else {
        digits_value(s.drop_last()) * 10 + (s.last() as int - '0' as int)
    }
}

/// A count shows as decimal digits that stand for it, without leading zeros.
pub proof fn lemma_decimal_value(n: nat)
    ensures
        decimal(n).len() >= 1,
        digits_value(decimal(n)) == n,
        forall|i: int| 0 <= i < decimal(n).len() ==> '0' <= #[trigger] decimal(n)[i] <= '9',
        decimal(n)[0] == '0' ==> n == 0,
    decreases n,
{
    if n < 10 {
        let d = decimal(n);
        assert(d.drop_last() =~= Seq::<char>::empty());
        assert(digit_char(n) as int == n + 48);
        assert(digits_value(d.drop_last()) == 0);
        assert(digits_value(d) == n);
    } else {
        let m = n / 10;
        lemma_decimal_value(m);
        let d = decimal(n);
        assert(d.drop_last() =~= decimal(m));
        assert(digit_char(n % 10) as int == n % 10 + 48);
        assert(d.last() == digit_char(n % 10));
        assert(m * 10 + n % 10 == n);
        assert(digits_value(d) == digits_value(decimal(m)) * 10 + n % 10);
        assert(d[0] == decimal(m)[0]);
        assert forall|i: int| 0 <= i < d.len() implies '0' <= #[trigger] d[i] <= '9' by {
            if i < d.len() - 1 {
                assert(d[i] == decimal(m)[i]);
            }
        }
    }
}

} // verus!
