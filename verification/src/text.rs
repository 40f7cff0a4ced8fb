//! Text helpers: decimal rendering of numbers, and splitting text into
//! lines and space-terminated words the way `str::lines` and
//! `str::split_inclusive(' ')` do.

use vstd::prelude::*;

verus! {

/// The character of a decimal digit `d` (`0 <= d < 10`).
pub open spec fn digit_char(d: nat) -> char {
    (d + 48) as char
}

/// The decimal representation of `n`, most significant digit first,
/// without leading zeros (`0` is written as a single `0`).
pub open spec fn decimal(n: nat) -> Seq<char>
    decreases n,
{
    if n < 10 {
        seq![digit_char(n)]
    } else {
        decimal(n / 10).push(digit_char(n % 10))
    }
}

/// Whether `c` is a decimal digit.
pub open spec fn is_digit(c: char) -> bool {
    '0' <= c <= '9'
}

/// `s` is a non-empty run of decimal digits.
pub open spec fn all_digits(s: Seq<char>) -> bool {
    s.len() > 0 && forall|i: int| 0 <= i < s.len() ==> is_digit(#[trigger] s[i])
}

/// The number that the decimal digits `s` stand for, most significant
/// first.
pub open spec fn digits_value(s: Seq<char>) -> nat
    decreases s.len(),
{
    if s.len() == 0 {
        0
    } else {
        digits_value(s.drop_last()) * 10 + (s.last() as int - 48) as nat
    }
}

/// The decimal representation of `n` is a run of digits that stands for
/// `n`.
pub proof fn lemma_decimal_value(n: nat)
    ensures
        all_digits(decimal(n)),
        digits_value(decimal(n)) == n,
    decreases n,
{
    assert(digit_char(n % 10) as int == n % 10 + 48);
    if n < 10 {
        assert(decimal(n).drop_last() =~= Seq::<char>::empty());
        assert(digits_value(Seq::<char>::empty()) == 0);
        assert(decimal(n).last() == digit_char(n));
    } else {
        lemma_decimal_value(n / 10);
        let d = decimal(n);
        assert(d.drop_last() =~= decimal(n / 10));
        assert(d.last() == digit_char(n % 10));
        assert(digits_value(d) == digits_value(decimal(n / 10)) * 10 + n % 10);
        assert((n / 10) * 10 + n % 10 == n);
        assert forall|i: int| 0 <= i < d.len() implies is_digit(#[trigger] d[i]) by {
            if i < d.len() - 1 {
                assert(d[i] == decimal(n / 10)[i]);
            }
        }
    }
}

/// `text` begins with `head`, then the decimal digits of `n`, then `sep`.
pub open spec fn number_follows(text: Seq<char>, head: Seq<char>, n: nat, sep: Seq<char>) -> bool {
    exists|d: Seq<char>|
        all_digits(d) && #[trigger] digits_value(d) == n && text.take(
            (head.len() + d.len() + sep.len()) as int,
        ) == head + d + sep
}

/// `text` is the decimal digits of `a`, a comma, and the decimal digits of
/// `b`.
pub open spec fn writes_pair(text: Seq<char>, a: nat, b: nat) -> bool {
    exists|da: Seq<char>, db: Seq<char>|
        all_digits(da) && all_digits(db) && #[trigger] digits_value(da) == a
            && #[trigger] digits_value(db) == b && text == da + seq![','] + db
}

/// Two numbers with the same decimal representation are equal.
pub proof fn lemma_decimal_injective(a: nat, b: nat)
    requires
        decimal(a) == decimal(b),
    ensures
        a == b,
{
    lemma_decimal_value(a);
    lemma_decimal_value(b);
}

/// Appends one character to a string.
/// Trusted: `String::push` appends the character at the end.
#[verifier::external_body]
fn push_char(s: &mut String, c: char)
    ensures
        final(s)@ == old(s)@.push(c),
{
    s.push(c);
}

/// Appends the decimal representation of `n` to `s`.
pub fn push_decimal(s: &mut String, n: u64)
    ensures
        final(s)@ == old(s)@ + decimal(n as nat),
    decreases n,
{
    if n >= 10 {
        push_decimal(s, n / 10);
    }
    let d: u8 = (n % 10) as u8;
    let c: char = (d + 48) as char;
    push_char(s, c);
}

/// A line ending in a carriage return loses it (the `\r` of a `\r\n` pair).
pub open spec fn strip_cr(line: Seq<char>) -> Seq<char> {
    if line.len() > 0 && line.last() == '\r' {
        line.drop_last()
    } else {
        line
    }
}

/// Reading `s` from the left: the lines closed by a `\n` so far, and the
/// text after the last `\n`.
pub open spec fn line_scan(s: Seq<char>) -> (Seq<Seq<char>>, Seq<char>)
    decreases s.len(),
{
    if s.len() == 0 {
        (seq![], seq![])
    } else {
        let (done, open) = line_scan(s.drop_last());
        if s.last() == '\n' {
            (done.push(strip_cr(open)), seq![])
        } else {
            (done, open.push(s.last()))
        }
    }
}

/// The lines of `s` as `str::lines` yields them: split at each `\n`, a
/// `\r` right before it dropped, and no empty line after a final `\n`.
pub open spec fn lines_of(s: Seq<char>) -> Seq<Seq<char>> {
    let (done, open) = line_scan(s);
    if open.len() == 0 {
        done
    } else {
        done.push(open)
    }
}

/// Reading `s` from the left: the words closed by a space so far (each
/// keeps its space), and the text after the last space.
pub open spec fn word_scan(s: Seq<char>) -> (Seq<Seq<char>>, Seq<char>)
    decreases s.len(),
{
    if s.len() == 0 {
        (seq![], seq![])
    } else {
        let (done, open) = word_scan(s.drop_last());
        if s.last() == ' ' {
            (done.push(open.push(' ')), seq![])
        } else {
            (done, open.push(s.last()))
        }
    }
}

/// The pieces of `s` as `str::split_inclusive(' ')` yields them: each
/// ends with its space, but for a last piece without one; no empty piece.
pub open spec fn words_of(s: Seq<char>) -> Seq<Seq<char>> {
    let (done, open) = word_scan(s);
    if open.len() == 0 {
        done
    } else {
        done.push(open)
    }
}

/// Splits `s` into its lines (see `lines_of`).
pub fn lines(s: &str) -> (out: Vec<String>)
    ensures
        out.deep_view() == lines_of(s@),
{
    let n = s.unicode_len();
    let mut out: Vec<String> = Vec::new();
    let mut start: usize = 0;
    let mut i: usize = 0;
    while i < n
        invariant
            n == s@.len(),
            start <= i <= n,
            line_scan(s@.take(i as int)).0 == out.deep_view(),
            line_scan(s@.take(i as int)).1 == s@.subrange(start as int, i as int),
        decreases n - i,
    {
        let c = s.get_char(i);
        assert(s@.take(i + 1).drop_last() == s@.take(i as int));
        assert(s@.take(i + 1).last() == c);
        assert(s@.subrange(start as int, i as int).push(c) =~= s@.subrange(start as int, i + 1));
        if i > start {
            assert(s@.subrange(start as int, i as int).drop_last() =~= s@.subrange(
                start as int,
                i - 1,
            ));
            assert(s@.subrange(start as int, i as int).last() == s@[i - 1]);
        }
        if c == '\n' {
            let end: usize = if i > start && s.get_char(i - 1) == '\r' {
                i - 1
            } else {
                i
            };
            let line = String::from_str(s.substring_char(start, end));
            let ghost before = out.deep_view();
            out.push(line);
            assert(out.deep_view() =~= before.push(s@.subrange(start as int, end as int)));
            start = i + 1;
        }
        i = i + 1;
    }
    assert(s@.take(n as int) == s@);
    if start < n {
        let ghost before = out.deep_view();
        out.push(String::from_str(s.substring_char(start, n)));
        assert(out.deep_view() =~= before.push(s@.subrange(start as int, n as int)));
    }
    out
}

/// Splits `s` into its space-terminated words (see `words_of`).
pub fn words(s: &str) -> (out: Vec<String>)
    ensures
        out.deep_view() == words_of(s@),
{
    let n = s.unicode_len();
    let mut out: Vec<String> = Vec::new();
    let mut start: usize = 0;
    let mut i: usize = 0;
    while i < n
        invariant
            n == s@.len(),
            start <= i <= n,
            word_scan(s@.take(i as int)).0 == out.deep_view(),
            word_scan(s@.take(i as int)).1 == s@.subrange(start as int, i as int),
        decreases n - i,
    {
        let c = s.get_char(i);
        assert(s@.take(i + 1).drop_last() == s@.take(i as int));
        assert(s@.take(i + 1).last() == c);
        assert(s@.subrange(start as int, i as int).push(c) =~= s@.subrange(start as int, i + 1));
        if c == ' ' {
            let word = String::from_str(s.substring_char(start, i + 1));
            let ghost before = out.deep_view();
            out.push(word);
            assert(out.deep_view() =~= before.push(s@.subrange(start as int, i + 1)));
            start = i + 1;
        }
        i = i + 1;
    }
    assert(s@.take(n as int) == s@);
    if start < n {
        let ghost before = out.deep_view();
        out.push(String::from_str(s.substring_char(start, n)));
        assert(out.deep_view() =~= before.push(s@.subrange(start as int, n as int)));
    }
    out
}

} // verus!
