//! Numbers and columns as text.

use vstd::prelude::*;

verus! {

/// `String::push` puts one character at the end of a string.
pub assume_specification[ String::push ](s: &mut String, ch: char)
    ensures
        final(s)@ == old(s)@.push(ch),
;

/// The text of an optional string.
pub open spec fn text_of(s: Option<String>) -> Option<Seq<char>> {
    match s {
        Some(s) => Some(s@),
        None => None,
    }
}

/// The character of a decimal digit.
pub open spec fn digit(d: nat) -> char {
    ('0' as nat + d) as char
}

/// A number in decimal notation, without leading zeros.
pub open spec fn decimal(n: nat) -> Seq<char>
    decreases n,
{
    if n < 10 {
        seq![digit(n)]
    } else {
        decimal(n / 10).push(digit(n % 10))
    }
}

/// A character, `n` times.
pub open spec fn run(ch: char, n: int) -> Seq<char> {
    Seq::new(
        if n < 0 {
            0
        } else {
            n as nat
        },
        |i: int| ch,
    )
}

/// A text at the left of a column of at least `width` characters.
pub open spec fn left_aligned(s: Seq<char>, width: int) -> Seq<char> {
    s + run(' ', width - s.len())
}

/// A text at the right of a column of at least `width` characters, with `fill` in front of it.
pub open spec fn right_aligned(s: Seq<char>, fill: char, width: int) -> Seq<char> {
    run(fill, width - s.len()) + s
}

/// The characters of a text.
pub fn chars_of(s: &str) -> (chars: Vec<char>)
    ensures
        chars@ == s@,
{
    let mut chars: Vec<char> = Vec::new();
    for ch in iter: s.chars()
        invariant
            iter.seq() == s@,
            chars@ == s@.take(iter.index() as int),
    {
        chars.push(ch);
        assert(chars@ =~= s@.take(iter.index() + 1));
    }
    assert(chars@ =~= s@);
    chars
}

/// Puts a number in decimal notation at the end of a text.
pub fn push_decimal(out: &mut String, n: u64)
    ensures
        final(out)@ == old(out)@ + decimal(n as nat),
    decreases n,
{
    if n >= 10 {
        push_decimal(out, n / 10);
    }
    let d: u8 = (n % 10) as u8;
    out.push(('0' as u8 + d) as char);
    assert(out@ =~= old(out)@ + decimal(n as nat));
}

/// Puts a character, `n` times, at the end of a text.
pub fn push_run(out: &mut String, ch: char, n: usize)
    ensures
        final(out)@ == old(out)@ + run(ch, n as int),
{
    let mut i: usize = 0;
    let ghost before = out@;
    assert(before =~= before + run(ch, 0));
    while i < n
        invariant
            i <= n,
            out@ == before + run(ch, i as int),
        decreases n - i,
    {
        out.push(ch);
        i = i + 1;
        assert(out@ =~= before + run(ch, i as int));
    }
}

/// Puts a text at the left of a column of at least `width` characters.
pub fn push_left_aligned(out: &mut String, s: &str, width: usize)
    ensures
        final(out)@ == old(out)@ + left_aligned(s@, width as int),
{
    let len: usize = s.unicode_len();
    out.append(s);
    push_run(out, ' ', width.saturating_sub(len));
    assert(run(' ', width.saturating_sub(len) as int) =~= run(' ', width - s@.len()));
    assert(out@ =~= old(out)@ + left_aligned(s@, width as int));
}

/// Puts a text at the right of a column of at least `width` characters, with `fill` in front of
/// it.
pub fn push_right_aligned(out: &mut String, s: &str, fill: char, width: usize)
    ensures
        final(out)@ == old(out)@ + right_aligned(s@, fill, width as int),
{
    let len: usize = s.unicode_len();
    push_run(out, fill, width.saturating_sub(len));
    out.append(s);
    assert(run(fill, width.saturating_sub(len) as int) =~= run(fill, width - s@.len()));
    assert(out@ =~= old(out)@ + right_aligned(s@, fill, width as int));
}

/// A number in decimal notation.
pub fn to_decimal(n: u64) -> (s: String)
    ensures
        s@ == decimal(n as nat),
{
    let mut s: String = String::new();
    push_decimal(&mut s, n);
    assert(s@ =~= decimal(n as nat));
    s
}

/// Hours, minutes and seconds. The hours are not padded: zero is `0:00:00`.
pub open spec fn duration_text(secs: nat) -> Seq<char> {
    decimal(secs / 3600) + seq![':'] + right_aligned(decimal((secs % 3600) / 60), '0', 2) + seq![
        ':',
    ] + right_aligned(decimal(secs % 60), '0', 2)
}

/// A duration as hours, minutes and seconds.
pub fn format_duration(secs: u64) -> (s: String)
    ensures
        s@ == duration_text(secs as nat),
{
    let hours: u64 = secs / 3600;
    let mins: u64 = (secs % 3600) / 60;
    let rest: u64 = secs % 60;
    let mut s: String = to_decimal(hours);
    s.push(':');
    push_right_aligned(&mut s, to_decimal(mins).as_str(), '0', 2);
    s.push(':');
    push_right_aligned(&mut s, to_decimal(rest).as_str(), '0', 2);
    assert(s@ =~= duration_text(secs as nat));
    s
}

/// The number that a text of decimal digits reads as.
pub open spec fn number_in(s: Seq<char>) -> int
    decreases s.len(),
{
    if s.len() == 0 {
        0
    } else {
        10 * number_in(s.drop_last()) + (s.last() as int - '0' as int)
    }
}

/// Whether a text reads as the number `n`: it is made of digits, and the first of several is not
/// zero.
pub open spec fn reads_as(s: Seq<char>, n: int) -> bool {
    &&& s.len() > 0
    &&& forall|i: int| 0 <= i < s.len() ==> '0' <= #[trigger] s[i] <= '9'
    &&& s.len() > 1 ==> s[0] != '0'
    &&& number_in(s) == n
}

/// The decimal notation of a number reads as the number.
pub proof fn law_decimal_reads_as_its_number(n: nat)
    ensures
        reads_as(decimal(n), n as int),
        n > 0 ==> decimal(n)[0] != '0',
    decreases n,
{
    if n >= 10 {
        law_decimal_reads_as_its_number(n / 10);
        let head = decimal(n / 10);
        assert(decimal(n).drop_last() =~= head);
        assert(decimal(n).last() == digit(n % 10));
        assert(forall|i: int| 0 <= i < head.len() ==> decimal(n)[i] == head[i]);
    } else {
        assert(decimal(n).drop_last() =~= Seq::empty());
        reveal_with_fuel(number_in, 2);
    }
}

/// Nothing else reads as the number: two notations of one number are the same.
pub proof fn law_notation_is_unique(a: Seq<char>, b: Seq<char>, n: int)
    requires
        reads_as(a, n),
        reads_as(b, n),
    ensures
        a == b,
    decreases a.len(),
{
    lemma_number_range(a);
    lemma_number_range(b);
    let x = a.drop_last();
    let y = b.drop_last();
    lemma_number_range(x);
    lemma_number_range(y);
    assert(a.last() == b.last() && number_in(x) == number_in(y));
    assert(a =~= x.push(a.last()) && b =~= y.push(b.last()));
    if x.len() > 0 && y.len() > 0 {
        assert(x[0] == a[0] && y[0] == b[0]);
        law_notation_is_unique(x, y, number_in(x));
    } else if x.len() > 0 {
        assert(x[0] == a[0]);
        assert(number_in(x) == 0);
    } else if y.len() > 0 {
        assert(y[0] == b[0]);
        assert(number_in(y) == 0);
    } else {
        assert(x =~= y);
    }
}

proof fn lemma_number_range(s: Seq<char>)
    requires
        forall|i: int| 0 <= i < s.len() ==> '0' <= #[trigger] s[i] <= '9',
    ensures
        number_in(s) >= 0,
        s.len() > 0 && s[0] != '0' ==> number_in(s) > 0,
        s.len() > 0 ==> '0' <= s.last() <= '9',
    decreases s.len(),
{
    if s.len() > 0 {
        let x = s.drop_last();
        assert(forall|i: int| 0 <= i < x.len() ==> x[i] == s[i]);
        lemma_number_range(x);
    }
}

/// A number as text reads as the number.
pub proof fn law_number_as_text_reads_back(n: u64, s: String)
    requires
        call_ensures(to_decimal, (n,), s),
    ensures
        reads_as(s@, n as int),
{
    law_decimal_reads_as_its_number(n as nat);
}

/// A number is put behind what a text holds, which stays, and reads as the number there.
pub proof fn law_pushed_number_reads_back(out: &mut String, n: u64)
    requires
        call_ensures(push_decimal, (out, n), ()),
    ensures
        old(out)@.is_prefix_of(final(out)@),
        reads_as(final(out)@.skip(old(out)@.len() as int), n as int),
{
    law_decimal_reads_as_its_number(n as nat);
    assert(final(out)@.skip(old(out)@.len() as int) =~= decimal(n as nat));
}

/// A run is as long as it is asked to be, and made of one character.
pub proof fn law_pushed_run_is_uniform(out: &mut String, ch: char, n: usize)
    requires
        call_ensures(push_run, (out, ch, n), ()),
    ensures
        final(out)@.len() == old(out)@.len() + n,
        forall|i: int|
            0 <= i < final(out)@.len() ==> #[trigger] final(out)@[i] == if i < old(out)@.len() {
                old(out)@[i]
            } else {
                ch
            },
{
}

/// A text at the left of a column starts there, is whole, and is followed by nothing but spaces
/// up to the width of the column. A text that is too long for the column is not cut.
pub proof fn law_left_aligned_text_starts_its_column(s: Seq<char>, width: int)
    ensures
        s.is_prefix_of(left_aligned(s, width)),
        left_aligned(s, width).len() == vstd::math::max(s.len() as int, width),
        forall|i: int|
            s.len() <= i < left_aligned(s, width).len() ==> #[trigger] left_aligned(s, width)[i]
                == ' ',
{
}

/// A text at the right of a column ends there, is whole, and has nothing but the fill in front of
/// it. A text that is too long for the column is not cut.
pub proof fn law_right_aligned_text_ends_its_column(s: Seq<char>, fill: char, width: int)
    ensures
        s.is_suffix_of(right_aligned(s, fill, width)),
        right_aligned(s, fill, width).len() == vstd::math::max(s.len() as int, width),
        forall|i: int|
            0 <= i < right_aligned(s, fill, width).len() - s.len() ==> #[trigger] right_aligned(
                s,
                fill,
                width,
            )[i] == fill,
{
}

/// Both ways to align put the column behind what a text holds, which stays.
pub proof fn law_columns_follow_each_other(
    left: &mut String,
    right: &mut String,
    s: &str,
    fill: char,
    width: usize,
)
    requires
        call_ensures(push_left_aligned, (left, s, width), ()),
        call_ensures(push_right_aligned, (right, s, fill, width), ()),
    ensures
        final(left)@ == old(left)@ + left_aligned(s@, width as int),
        final(right)@ == old(right)@ + right_aligned(s@, fill, width as int),
{
}

/// The characters of a text are handed out whole and in order.
pub proof fn law_characters_are_those_of_the_text(s: &str, chars: Vec<char>)
    requires
        call_ensures(chars_of, (s,), chars),
    ensures
        chars@ == s@,
{
}

/// A duration reads back: it is hours, two digits of minutes and two digits of seconds, with
/// colons between them, and these make up the duration.
pub proof fn law_duration_reads_back(secs: u64, s: String)
    requires
        call_ensures(format_duration, (secs,), s),
    ensures
        ({
            let n = s@.len() as int;
            &&& n >= 7
            &&& s@[n - 6] == ':' && s@[n - 3] == ':'
            &&& reads_as(s@.take(n - 6), number_in(s@.take(n - 6)))
            &&& forall|i: int|
                n - 5 <= i < n && i != n - 3 ==> '0' <= #[trigger] s@[i] <= '9'
            &&& 0 <= number_in(s@.subrange(n - 5, n - 3)) < 60
            &&& 0 <= number_in(s@.skip(n - 2)) < 60
            &&& secs == 3600 * number_in(s@.take(n - 6)) + 60 * number_in(
                s@.subrange(n - 5, n - 3),
            ) + number_in(s@.skip(n - 2))
        }),
{
    let h = decimal(secs as nat / 3600);
    let m = right_aligned(decimal((secs as nat % 3600) / 60), '0', 2);
    let r = right_aligned(decimal(secs as nat % 60), '0', 2);
    lemma_two_digits((secs as nat % 3600) / 60);
    lemma_two_digits(secs as nat % 60);
    assert(reads_as(h, (secs / 3600) as int)) by {
        law_decimal_reads_as_its_number(secs as nat / 3600);
    }
    lemma_duration_parts(s@, h, m, r);
}

proof fn lemma_duration_parts(s: Seq<char>, h: Seq<char>, m: Seq<char>, r: Seq<char>)
    requires
        s == h + seq![':'] + m + seq![':'] + r,
        m.len() == 2,
        r.len() == 2,
    ensures
        s.len() == h.len() + 6,
        s.take(s.len() - 6) == h,
        s.subrange(s.len() - 5, s.len() - 3) == m,
        s.skip(s.len() - 2) == r,
        s[s.len() - 6] == ':',
        s[s.len() - 5] == m[0],
        s[s.len() - 4] == m[1],
        s[s.len() - 3] == ':',
        s[s.len() - 2] == r[0],
        s[s.len() - 1] == r[1],
{
    assert(s.take(s.len() - 6) =~= h);
    assert(s.subrange(s.len() - 5, s.len() - 3) =~= m);
    assert(s.skip(s.len() - 2) =~= r);
}

proof fn lemma_two_digits(n: nat)
    requires
        n < 60,
    ensures
        right_aligned(decimal(n), '0', 2).len() == 2,
        number_in(right_aligned(decimal(n), '0', 2)) == n,
        '0' <= right_aligned(decimal(n), '0', 2)[0] <= '9',
        '0' <= right_aligned(decimal(n), '0', 2)[1] <= '9',
{
    let s = right_aligned(decimal(n), '0', 2);
    law_decimal_reads_as_its_number(n);
    reveal_with_fuel(decimal, 3);
    reveal_with_fuel(number_in, 3);
    assert(s =~= seq![digit(n / 10), digit(n % 10)]);
    assert(s.drop_last() =~= seq![digit(n / 10)]);
    assert(s.drop_last().drop_last() =~= Seq::empty());
}

} // verus!
