//! What holds of the text primitives, in terms of the texts themselves.

use vstd::prelude::*;

use crate::text;

verus! {

// ── Collections ──

/// Viewing strings as texts keeps their number, their order and their characters.
pub proof fn law_texts_keep_every_string(v: Seq<String>, i: int)
    ensures
        text::texts(v).len() == v.len(),
        0 <= i < v.len() ==> text::texts(v)[i] == v[i]@,
{
}

/// An optional text is there exactly when the string is, and reads the same.
pub proof fn law_optional_text_is_faithful(s: String, t: &str)
    ensures
        text::opt_text(Some(s)) == Some(s@),
        text::opt_text(None::<String>) is None,
        text::opt_str(Some(t)) == Some(t@),
        text::opt_str(None::<&str>) is None,
        text::result_text(Ok::<String, String>(s)) == Ok::<Seq<char>, Seq<char>>(s@),
        text::result_text(Err::<String, String>(s)) == Err::<Seq<char>, Seq<char>>(s@),
{
}

// ── Trimming ──

/// The blank characters of ASCII are white space, and no visible one is.
pub proof fn law_ascii_white_space(c: char)
    ensures
        c == ' ' || c == '\t' || c == '\n' || c == '\r' ==> text::white_space(c),
        '!' <= c <= '~' ==> !text::white_space(c),
{
}

proof fn lemma_trim_start(s: Seq<char>) -> (k: int)
    ensures
        0 <= k <= s.len(),
        text::trim_start(s) == s.skip(k),
        forall|i: int| 0 <= i < k ==> text::white_space(#[trigger] s[i]),
        k < s.len() ==> !text::white_space(s[k]),
    decreases s.len(),
{
    if s.len() > 0 && text::white_space(s[0]) {
        let t = s.drop_first();
        let k = lemma_trim_start(t);
        assert(t.skip(k) =~= s.skip(k + 1));
        assert forall|i: int| 0 <= i < k + 1 implies text::white_space(#[trigger] s[i]) by {
            if i > 0 {
                assert(t[i - 1] == s[i]);
            }
        }
        if k < t.len() {
            assert(t[k] == s[k + 1]);
        }
        k + 1
    } else {
        assert(s.skip(0) =~= s);
        0
    }
}

proof fn lemma_trim_end(s: Seq<char>) -> (k: int)
    ensures
        0 <= k <= s.len(),
        text::trim_end(s) == s.take(k),
        forall|i: int| k <= i < s.len() ==> text::white_space(#[trigger] s[i]),
        k > 0 ==> !text::white_space(s[k - 1]),
    decreases s.len(),
{
    if s.len() > 0 && text::white_space(s.last()) {
        let t = s.drop_last();
        let k = lemma_trim_end(t);
        assert(t.take(k) =~= s.take(k));
        assert forall|i: int| k <= i < s.len() implies text::white_space(#[trigger] s[i]) by {
            if i < t.len() {
                assert(t[i] == s[i]);
            }
        }
        if k > 0 {
            assert(t[k - 1] == s[k - 1]);
        }
        k
    } else {
        assert(s.take(s.len() as int) =~= s);
        s.len() as int
    }
}

/// Trimming takes white space off both ends, all of it, and nothing else: what is
/// left is one stretch of the text, with white space alone around it and none at
/// its ends.
pub proof fn law_trim_cuts_exactly_the_white_space(s: Seq<char>)
    ensures
        exists|a: int, b: int|
            0 <= a <= b <= s.len() && text::trimmed(s) == #[trigger] s.subrange(a, b) && (forall|
                i: int,
            |
                0 <= i < a || b <= i < s.len() ==> text::white_space(#[trigger] s[i])),
        text::trimmed(s).len() > 0 ==> !text::white_space(text::trimmed(s)[0])
            && !text::white_space(text::trimmed(s).last()),
        text::trimmed(s).len() == 0 <==> forall|i: int|
            0 <= i < s.len() ==> text::white_space(#[trigger] s[i]),
{
    let a = lemma_trim_start(s);
    let t = s.skip(a);
    let k = lemma_trim_end(t);
    let b = a + k;
    assert(t.take(k) =~= s.subrange(a, b));
    assert forall|i: int| 0 <= i < a || b <= i < s.len() implies text::white_space(
        #[trigger] s[i],
    ) by {
        if i >= b {
            assert(t[i - a] == s[i]);
        }
    }
    if k > 0 {
        assert(text::trimmed(s)[0] == s[a]);
        assert(text::trimmed(s).last() == t[k - 1]);
        assert(!text::white_space(s[a]));
    }
}

// ── Numbers ──

/// A number written in decimal is read back as itself, up to the limit asked for,
/// with or without a plus sign; above the limit it is not read.
pub proof fn law_decimal_is_read_back(n: nat, max: nat)
    ensures
        n <= max ==> text::unsigned_value(text::decimal(n), max) == Some(n),
        n <= max ==> text::unsigned_value(seq!['+'] + text::decimal(n), max) == Some(n),
        n > max ==> text::unsigned_value(text::decimal(n), max) is None,
{
    text::lemma_decimal_value(n);
    text::lemma_decimal_digits(n);
    let d = text::decimal(n);
    assert(text::is_digit(d[0]));
    assert((seq!['+'] + d).drop_first() =~= d);
}

/// Numbers are told apart by how they are written.
pub proof fn law_decimals_distinct(a: nat, b: nat)
    requires
        text::decimal(a) == text::decimal(b),
    ensures
        a == b,
{
    text::lemma_decimal_value(a);
    text::lemma_decimal_value(b);
}

/// Decimal text holds digits alone and starts with a zero only when it is zero.
pub proof fn law_decimal_has_no_leading_zero(n: nat)
    ensures
        text::decimal(n).len() > 0,
        forall|i: int|
            0 <= i < text::decimal(n).len() ==> '0' <= #[trigger] text::decimal(n)[i] <= '9',
        text::decimal(n)[0] == '0' <==> n == 0,
    decreases n,
{
    if n >= 10 {
        law_decimal_has_no_leading_zero(n / 10);
        assert(text::decimal(n)[0] == text::decimal(n / 10)[0]);
        let d = text::decimal(n);
        assert forall|i: int| 0 <= i < d.len() implies '0' <= #[trigger] d[i] <= '9' by {
            if i < d.len() - 1 {
                assert(d[i] == text::decimal(n / 10)[i]);
            }
        }
    }
}

proof fn lemma_digits_value_all(s: Seq<char>, i: int)
    requires
        0 <= i < s.len(),
        text::digits_value(s) is Some,
    ensures
        '0' <= s[i] <= '9',
    decreases s.len(),
{
    if i < s.len() - 1 {
        lemma_digits_value_all(s.drop_last(), i);
        assert(s.drop_last()[i] == s[i]);
    }
}

/// Only digits are read as a number, after one plus sign at most: a blank, a minus
/// sign or any other character anywhere refuses the text, and so does having no
/// digit.
pub proof fn law_only_digits_are_a_number(s: Seq<char>, max: nat, i: int)
    requires
        text::unsigned_value(s, max) is Some,
    ensures
        s.len() > 0,
        s[0] == '+' ==> s.len() > 1,
        0 <= i < s.len() ==> '0' <= s[i] <= '9' || i == 0 && s[0] == '+',
        text::unsigned_value(s, max)->0 <= max,
{
    if 0 <= i < s.len() {
        if s[0] == '+' {
            if i > 0 {
                lemma_digits_value_all(s.drop_first(), i - 1);
                assert(s.drop_first()[i - 1] == s[i]);
            }
        } else {
            lemma_digits_value_all(s, i);
        }
    }
}

/// A digit more makes a number ten times as large, plus the digit.
pub proof fn law_numbers_are_read_digit_by_digit(s: Seq<char>, d: nat, max: nat)
    requires
        d <= 9,
        text::unsigned_value(s, max) is Some,
    ensures
        ({
            let longer = 10 * text::unsigned_value(s, max)->0 + d;
            text::unsigned_value(s.push(('0' as nat + d) as char), max) == if longer <= max {
                Some(longer)
            } else {
                None::<nat>
            }
        }),
{
    let c = ('0' as nat + d) as char;
    let t = s.push(c);
    if s[0] == '+' {
        assert(t.drop_first().drop_last() =~= s.drop_first());
        assert(t.drop_first().last() == c);
    } else {
        assert(t.drop_last() =~= s);
    }
}

/// Sixteen to the power of `width`.
pub open spec fn hex_range(width: nat) -> nat
    decreases width,
{
    if width == 0 {
        1
    } else {
        16 * hex_range((width - 1) as nat)
    }
}

/// Numbers within the width are told apart by their hexadecimal digits.
pub proof fn law_hex_digits_distinct(a: nat, b: nat, width: nat)
    requires
        a < hex_range(width),
        b < hex_range(width),
        text::hex_fixed(a, width) == text::hex_fixed(b, width),
    ensures
        a == b,
    decreases width,
{
    if width > 0 {
        let w = (width - 1) as nat;
        let x = text::hex_fixed(a, width);
        let y = text::hex_fixed(b, width);
        assert(x.drop_last() =~= text::hex_fixed(a / 16, w));
        assert(y.drop_last() =~= text::hex_fixed(b / 16, w));
        assert(x.last() == y.last());
        assert(a / 16 < hex_range(w)) by (nonlinear_arith)
            requires
                a < 16 * hex_range(w),
        ;
        assert(b / 16 < hex_range(w)) by (nonlinear_arith)
            requires
                b < 16 * hex_range(w),
        ;
        law_hex_digits_distinct(a / 16, b / 16, w);
        assert(a % 16 == b % 16);
    }
}

// ── Searching ──

/// A text stands at a position exactly when the whole is what precedes it, the
/// text, and what follows.
pub proof fn law_occurrence_splits_the_text(h: Seq<char>, p: Seq<char>, i: int)
    ensures
        text::occurs_at(h, p, i) <==> 0 <= i && i + p.len() <= h.len() && h == h.take(i) + p
            + h.skip(i + p.len()),
        text::occurs_at(h, p, i) ==> text::contains_text(h, p),
{
    if 0 <= i && i + p.len() <= h.len() {
        assert(h =~= h.take(i) + h.subrange(i, i + p.len()) + h.skip(i + p.len()));
        if h == h.take(i) + p + h.skip(i + p.len()) {
            assert(p =~= h.subrange(i, i + p.len()));
        }
    }
}

/// A text is found between whatever stands around it.
pub proof fn law_part_is_contained(a: Seq<char>, p: Seq<char>, b: Seq<char>)
    ensures
        text::contains_text(a + p + b, p),
        text::starts_with(p + b, p),
        text::ends_with(a + p, p),
{
    assert((a + p + b).subrange(a.len() as int, (a.len() + p.len()) as int) =~= p);
    assert(text::occurs_at(a + p + b, p, a.len() as int));
    assert((p + b).subrange(0, p.len() as int) =~= p);
    assert((a + p).subrange(a.len() as int, (a.len() + p.len()) as int) =~= p);
}

/// A beginning or an end is what it says.
pub proof fn law_ends_are_ends(h: Seq<char>, p: Seq<char>)
    ensures
        text::starts_with(h, p) ==> h == p + h.skip(p.len() as int),
        text::ends_with(h, p) ==> h == h.take(h.len() - p.len()) + p,
{
    if text::starts_with(h, p) {
        assert(h =~= h.subrange(0, p.len() as int) + h.skip(p.len() as int));
    }
    if text::ends_with(h, p) {
        let k = h.len() - p.len();
        assert(h =~= h.take(k) + h.subrange(k, k + p.len()));
    }
}

// ── Lines ──

/// A text without a line feed is one line; an empty one is none.
pub proof fn law_text_without_breaks_is_one_line(s: Seq<char>)
    requires
        forall|i: int| 0 <= i < s.len() ==> #[trigger] s[i] != '\n',
    ensures
        text::lines_of(s) == if s.len() == 0 {
            Seq::<Seq<char>>::empty()
        } else {
            seq![s]
        },
{
    text::lemma_line_break(s, s.len() as int);
}

/// A line feed ends a line, with a carriage return before it or not, and the lines
/// after it are those of the rest.
pub proof fn law_line_feed_ends_a_line(a: Seq<char>, b: Seq<char>)
    requires
        forall|i: int| 0 <= i < a.len() ==> #[trigger] a[i] != '\n',
        a.len() > 0 ==> a.last() != '\r',
    ensures
        text::lines_of(a + seq!['\n'] + b) == seq![a] + text::lines_of(b),
        text::lines_of(a + seq!['\r', '\n'] + b) == seq![a] + text::lines_of(b),
{
    let n = a.len() as int;
    let s = a + seq!['\n'] + b;
    text::lemma_line_break(s, n);
    assert(s.take(n) =~= a);
    assert(s.skip(n + 1) =~= b);
    let t = a + seq!['\r', '\n'] + b;
    text::lemma_line_break(t, n + 1);
    assert(t.take(n + 1) =~= a.push('\r'));
    assert(t.take(n + 1).drop_last() =~= a);
    assert(t.skip(n + 2) =~= b);
}

// ── Layout ──

/// Joining keeps every part, in order, with the separator between each two and
/// nowhere else.
pub proof fn law_join_separates(parts: Seq<Seq<char>>, sep: Seq<char>, last: Seq<char>)
    ensures
        text::joined(seq![last], sep) == last,
        parts.len() > 0 ==> text::joined(parts.push(last), sep) == text::joined(parts, sep) + sep
            + last,
{
    assert(parts.push(last).drop_last() =~= parts);
}

/// Every part is found in the joined text.
pub proof fn law_join_keeps_every_part(parts: Seq<Seq<char>>, sep: Seq<char>, i: int)
    requires
        0 <= i < parts.len(),
    ensures
        text::contains_text(text::joined(parts, sep), parts[i]),
    decreases parts.len(),
{
    let t = text::joined(parts, sep);
    let e = Seq::<char>::empty();
    if parts.len() == 1 {
        assert(e + parts[0] + e =~= t);
        law_part_is_contained(e, parts[0], e);
    } else {
        let front = parts.drop_last();
        let before = text::joined(front, sep);
        if i == parts.len() - 1 {
            law_part_is_contained(before + sep, parts[i], e);
            assert(before + sep + parts[i] + e =~= t);
        } else {
            law_join_keeps_every_part(front, sep, i);
            assert(front[i] == parts[i]);
            let k = choose|k: int| text::occurs_at(before, parts[i], k);
            assert(t.subrange(k, k + parts[i].len()) =~= before.subrange(k, k + parts[i].len()));
            assert(text::occurs_at(t, parts[i], k));
        }
    }
}

/// Padding keeps the text in front, adds blanks alone, and reaches the width
/// exactly unless the text is longer.
pub proof fn law_padding_fills_to_the_width(s: Seq<char>, width: nat, i: int)
    ensures
        ({
            let p = text::padded(s, width);
            &&& p.len() == if s.len() >= width {
                s.len()
            } else {
                width
            }
            &&& 0 <= i < s.len() ==> p[i] == s[i]
            &&& s.len() <= i < p.len() ==> p[i] == ' '
        }),
{
}

/// Hexadecimal text is read digit by digit: the digits 0 to 9 and then a to f, the
/// last for the rest by sixteen, and no leading zero.
pub proof fn law_hex_is_written_digit_by_digit(n: nat, width: nat)
    ensures
        text::hex(n).len() > 0,
        n >= 16 ==> text::hex(n).drop_last() == text::hex(n / 16),
        n < 16 ==> text::hex(n).len() == 1,
        '0' <= text::hex(n).last() <= '9' ==> n % 16 == text::hex(n).last() as nat - '0' as nat,
        text::hex(n).last() > '9' ==> 'a' <= text::hex(n).last() <= 'f' && n % 16
            == text::hex(n).last() as nat - 'a' as nat + 10,
        text::hex(n).last() >= '0',
        width > 0 ==> text::hex_fixed(n, width).len() == width,
        width > 0 ==> text::hex_fixed(n, width).last() == text::hex(n % 16)[0],
        width > 0 ==> text::hex_fixed(n, width).drop_last() == text::hex_fixed(
            n / 16,
            (width - 1) as nat,
        ),
    decreases width,
{
    if width > 1 {
        law_hex_is_written_digit_by_digit(n / 16, (width - 1) as nat);
    }
    if n >= 16 {
        assert(text::hex(n).drop_last() =~= text::hex(n / 16));
    }
    if width > 0 {
        assert(text::hex_fixed(n, width).drop_last() =~= text::hex_fixed(
            n / 16,
            (width - 1) as nat,
        ));
    }
}

} // verus!
