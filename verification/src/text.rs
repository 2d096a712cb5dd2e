//! Decimal numerals and small string utilities shared by the other modules.

use vstd::prelude::*;
use vstd::std_specs::iter::IteratorSpec;
use vstd::string::*;

verus! {

/// Whether `c` is one of the ten ASCII decimal digits.
pub open spec fn is_digit(c: char) -> bool {
    '0' <= c && c <= '9'
}

/// The number that the digit `c` stands for.
pub open spec fn digit_value(c: char) -> nat {
    (c as u32 - '0' as u32) as nat
}

/// The digit that stands for `d`, for `d` below ten.
pub open spec fn digit_char(d: nat) -> char {
    (d + '0' as u32) as char
}

/// Whether every element of `s` is a decimal digit.
pub open spec fn all_digits(s: Seq<char>) -> bool {
    forall|i: int| 0 <= i < s.len() ==> is_digit(#[trigger] s[i])
}

/// The shortest decimal numeral of `n`: no leading zero, and `0` for zero.
pub open spec fn decimal(n: nat) -> Seq<char>
    decreases n,
{
    if n < 10 {
        seq![digit_char(n)]
    } else {
        decimal(n / 10).push(digit_char(n % 10))
    }
}

/// The number that the digit string `s` denotes, read in base ten.
pub open spec fn decimal_value(s: Seq<char>) -> nat
    decreases s.len(),
{
    if s.len() == 0 {
        0
    } else {
        decimal_value(s.drop_last()) * 10 + digit_value(s.last())
    }
}

/// `count` zero digits.
pub open spec fn zeros(count: nat) -> Seq<char> {
    Seq::new(count, |i: int| '0')
}

/// The decimal numeral of `n`, filled with zeros on the left up to `width` digits.
pub open spec fn padded(n: nat, width: nat) -> Seq<char> {
    if decimal(n).len() >= width {
        decimal(n)
    } else {
        zeros((width - decimal(n).len()) as nat) + decimal(n)
    }
}

/// The first position at or after `from` where `s` holds `c`, or the length of
/// `s` where it holds none.
pub open spec fn find_from(s: Seq<char>, c: char, from: int) -> int
    decreases s.len() - from,
{
    if from < 0 || from >= s.len() {
        s.len() as int
    } else if s[from] == c {
        from
    } else {
        find_from(s, c, from + 1)
    }
}

/// The characters of `text`, in order.
pub fn chars_of(text: &str) -> (chars: Vec<char>)
    ensures
        chars@ == text@,
{
    let mut chars: Vec<char> = Vec::new();
    let mut it = text.chars();
    let mut done = false;
    while !done
        invariant
            chars@ + it.remaining() == text@,
            it.obeys_prophetic_iter_laws(),
            it.decrease() is Some,
            done ==> it.remaining().len() == 0,
        decreases if done { 0 } else { 1 + it.decrease()->0 },
    {
        match it.next() {
            Some(c) => {
                chars.push(c);
                assert(chars@ + it.remaining() =~= text@);
            },
            None => {
                done = true;
            },
        }
    }
    assert(chars@ =~= text@);
    chars
}

/// The one-character string that holds the digit of `d`.
pub fn digit_str(d: u64) -> (digit: &'static str)
    requires
        d < 10,
    ensures
        digit@ == seq![digit_char(d as nat)],
{
    proof {
        reveal_strlit("0");
        reveal_strlit("1");
        reveal_strlit("2");
        reveal_strlit("3");
        reveal_strlit("4");
        reveal_strlit("5");
        reveal_strlit("6");
        reveal_strlit("7");
        reveal_strlit("8");
        reveal_strlit("9");
    }
    let digit = if d == 0 {
        "0"
    } else if d == 1 {
        "1"
    } else if d == 2 {
        "2"
    } else if d == 3 {
        "3"
    } else if d == 4 {
        "4"
    } else if d == 5 {
        "5"
    } else if d == 6 {
        "6"
    } else if d == 7 {
        "7"
    } else if d == 8 {
        "8"
    } else {
        "9"
    };
    assert(digit@ =~= seq![digit_char(d as nat)]);
    digit
}

/// Appends the shortest decimal numeral of `n` to `out`.
pub fn append_decimal(out: &mut String, n: u64)
    ensures
        final(out)@ == old(out)@ + decimal(n as nat),
    decreases n,
{
    if n >= 10 {
        append_decimal(out, n / 10);
    }
    out.append(digit_str(n % 10));
    assert(out@ =~= old(out)@ + decimal(n as nat));
}

/// The number of digits in the shortest decimal numeral of `n`.
pub fn decimal_len(n: u64) -> (len: u64)
    ensures
        len == decimal(n as nat).len(),
        1 <= len,
        len <= n || len == 1,
    decreases n,
{
    if n < 10 {
        1
    } else {
        1 + decimal_len(n / 10)
    }
}

/// Appends the decimal numeral of `n` to `out`, filled with zeros on the left
/// up to `width` digits.
pub fn append_padded(out: &mut String, n: u64, width: u64)
    ensures
        final(out)@ == old(out)@ + padded(n as nat, width as nat),
{
    let len = decimal_len(n);
    let mut filled: u64 = len;
    proof {
        reveal_strlit("0");
    }
    while filled < width
        invariant
            len == decimal(n as nat).len(),
            len <= filled,
            filled <= width || filled == len,
            out@ == old(out)@ + zeros((filled - len) as nat),
            "0"@ == seq!['0'],
        decreases width - filled,
    {
        out.append("0");
        filled = filled + 1;
        assert(out@ =~= old(out)@ + zeros((filled - len) as nat));
    }
    append_decimal(out, n);
    assert(out@ =~= old(out)@ + padded(n as nat, width as nat));
}

/// The largest number that `read_number` hands out: the most whole hours
/// that a count of milliseconds in 64 bits can hold.
pub const NUMBER_CAP: u64 = 5_124_095_576_030;

/// What `read_number` found in a stretch of characters.
#[derive(Debug, Clone, Copy, PartialEq, Eq, Structural)]
pub enum Numeral {
    /// Some character of the stretch is no digit.
    NotDigits,
    /// The stretch is made of digits and denotes a number above `NUMBER_CAP`.
    TooLarge,
    /// The stretch is made of digits and denotes this number.
    Value(u64),
}

/// What `read_number` returns on the stretch `field`.
pub open spec fn numeral_of(field: Seq<char>) -> Numeral {
    if !all_digits(field) {
        Numeral::NotDigits
    } else if decimal_value(field) > NUMBER_CAP {
        Numeral::TooLarge
    } else {
        Numeral::Value(decimal_value(field) as u64)
    }
}

/// The first position at or after `from` where `chars` holds `c`, or the
/// length of `chars` where it holds none.
pub fn find_char(chars: &Vec<char>, c: char, from: usize) -> (pos: usize)
    requires
        from <= chars.len(),
    ensures
        pos == find_from(chars@, c, from as int),
        from <= pos <= chars.len(),
        pos < chars.len() ==> chars[pos as int] == c,
        forall|i: int| from <= i < pos ==> chars[i] != c,
{
    let mut pos: usize = from;
    while pos < chars.len() && chars[pos] != c
        invariant
            from <= pos <= chars.len(),
            find_from(chars@, c, from as int) == find_from(chars@, c, pos as int),
            forall|i: int| from <= i < pos ==> chars[i] != c,
        decreases chars.len() - pos,
    {
        pos = pos + 1;
    }
    pos
}

/// Reads the characters of `chars` from `lo` up to `hi` as a decimal number.
pub fn read_number(chars: &Vec<char>, lo: usize, hi: usize) -> (numeral: Numeral)
    requires
        lo <= hi <= chars.len(),
    ensures
        numeral == numeral_of(chars@.subrange(lo as int, hi as int)),
{
    let ghost field = chars@.subrange(lo as int, hi as int);
    let mut value: u64 = 0;
    let mut too_large = false;
    let mut i: usize = lo;
    assert(chars@.subrange(lo as int, lo as int) =~= Seq::<char>::empty());
    while i < hi
        invariant
            lo <= i <= hi <= chars.len(),
            field == chars@.subrange(lo as int, hi as int),
            all_digits(chars@.subrange(lo as int, i as int)),
            value <= NUMBER_CAP,
            !too_large ==> value == decimal_value(chars@.subrange(lo as int, i as int)),
            too_large ==> decimal_value(chars@.subrange(lo as int, i as int)) > NUMBER_CAP,
        decreases hi - i,
    {
        let c = chars[i];
        let ghost before = chars@.subrange(lo as int, i as int);
        let ghost after = chars@.subrange(lo as int, i + 1);
        assert(after.drop_last() =~= before);
        assert(after.last() == c);
        if !(c >= '0' && c <= '9') {
            assert(field[i - lo] == c);
            return Numeral::NotDigits;
        }
        let digit: u64 = (c as u32 - '0' as u32) as u64;
        assert(digit == digit_value(c));
        assert(all_digits(after)) by {
            assert forall|k: int| 0 <= k < after.len() implies is_digit(#[trigger] after[k]) by {
                if k < before.len() {
                    assert(after[k] == before[k]);
                }
            }
        }
        if !too_large {
            let next = value * 10 + digit;
            if next > NUMBER_CAP {
                too_large = true;
            } else {
                value = next;
            }
        }
        i = i + 1;
    }
    assert(chars@.subrange(lo as int, i as int) =~= field);
    if too_large {
        Numeral::TooLarge
    } else {
        Numeral::Value(value)
    }
}

/// A numeral of `s.len()` digits, at most three, denotes a number below the
/// matching power of ten.
pub proof fn lemma_short_value_bound(s: Seq<char>)
    requires
        all_digits(s),
        s.len() <= 3,
    ensures
        s.len() == 1 ==> decimal_value(s) < 10,
        s.len() == 2 ==> decimal_value(s) < 100,
        s.len() == 3 ==> decimal_value(s) < 1000,
    decreases s.len(),
{
    if s.len() > 0 {
        let head = s.drop_last();
        assert(all_digits(head)) by {
            assert forall|i: int| 0 <= i < head.len() implies is_digit(#[trigger] head[i]) by {
                assert(head[i] == s[i]);
            }
        }
        assert(is_digit(s[s.len() - 1]));
        lemma_short_value_bound(head);
        if head.len() == 0 {
            assert(decimal_value(head) == 0);
        }
    }
}

/// The shortest numeral of `n` is made of digits, and starts with a zero only
/// where `n` is zero.
pub proof fn lemma_decimal_shape(n: nat)
    ensures
        decimal(n).len() >= 1,
        all_digits(decimal(n)),
        n > 0 ==> decimal(n)[0] != '0',
        n < 10 <==> decimal(n).len() == 1,
        n < 100 ==> decimal(n).len() <= 2,
        n < 1000 ==> decimal(n).len() <= 3,
    decreases n,
{
    if n >= 10 {
        lemma_decimal_shape(n / 10);
        let head = decimal(n / 10);
        let whole = head.push(digit_char(n % 10));
        assert(whole[0] == head[0]);
        assert forall|i: int| 0 <= i < whole.len() implies is_digit(#[trigger] whole[i]) by {
            if i < head.len() {
                assert(whole[i] == head[i]);
            }
        }
    }
}

/// Reading the shortest numeral of `n` gives `n` back.
pub proof fn lemma_value_of_decimal(n: nat)
    ensures
        decimal_value(decimal(n)) == n,
    decreases n,
{
    if n < 10 {
        assert(decimal(n).drop_last() =~= Seq::<char>::empty());
        assert(decimal_value(decimal(n).drop_last()) == 0);
    } else {
        lemma_value_of_decimal(n / 10);
        assert(decimal(n).drop_last() =~= decimal(n / 10));
    }
}

/// Zeros in front of a numeral do not change the number it denotes.
pub proof fn lemma_value_skips_zeros(count: nat, s: Seq<char>)
    ensures
        decimal_value(zeros(count) + s) == decimal_value(s),
    decreases s.len(), count,
{
    if s.len() > 0 {
        lemma_value_skips_zeros(count, s.drop_last());
        assert((zeros(count) + s).drop_last() =~= zeros(count) + s.drop_last());
    } else if count > 0 {
        lemma_value_skips_zeros((count - 1) as nat, s);
        assert((zeros(count) + s).drop_last() =~= zeros((count - 1) as nat) + s);
    } else {
        assert(zeros(count) + s =~= s);
    }
}

/// A numeral is the shortest numeral of its number behind some zeros.
pub proof fn lemma_numeral_split(s: Seq<char>)
    requires
        all_digits(s),
        s.len() >= 1,
    ensures
        decimal(decimal_value(s)).len() <= s.len(),
        s == zeros((s.len() - decimal(decimal_value(s)).len()) as nat) + decimal(decimal_value(s)),
    decreases s.len(),
{
    let head = s.drop_last();
    let last = s.last();
    assert(is_digit(last));
    if head.len() == 0 {
        assert(decimal_value(head) == 0);
        assert(s =~= zeros(0) + decimal(decimal_value(s)));
    } else {
        assert(all_digits(head)) by {
            assert forall|i: int| 0 <= i < head.len() implies is_digit(#[trigger] head[i]) by {
                assert(head[i] == s[i]);
            }
        }
        lemma_numeral_split(head);
        let head_value = decimal_value(head);
        let value = decimal_value(s);
        lemma_decimal_shape(head_value);
        let head_short = decimal(head_value);
        let head_fill = zeros((head.len() - head_short.len()) as nat);
        assert(head == head_fill + head_short);
        assert(s =~= head.push(last));
        assert(digit_char(digit_value(last)) == last);
        if head_value == 0 {
            assert(decimal(value) =~= seq![last]);
            let fill = zeros((s.len() - 1) as nat);
            assert forall|i: int| 0 <= i < s.len() implies s[i] == (fill + decimal(value))[i] by {
                if i < head.len() {
                    assert(s[i] == head[i]);
                    if i >= head_fill.len() {
                        assert(head[i] == head_short[i - head_fill.len()]);
                    }
                }
            }
            assert(s =~= fill + decimal(value));
        } else {
            assert(value / 10 == head_value);
            assert(value % 10 == digit_value(last));
            assert(decimal(value) =~= head_short.push(last));
            assert(s =~= head_fill + head_short.push(last));
        }
    }
}

/// A numeral of `width` digits or more, with no needless zero in front, is the
/// padded numeral of its number.
pub proof fn lemma_padded_of_value(s: Seq<char>, width: nat)
    requires
        all_digits(s),
        1 <= width <= s.len(),
        s.len() > width ==> s[0] != '0',
    ensures
        padded(decimal_value(s), width) == s,
{
    lemma_numeral_split(s);
    let short = decimal(decimal_value(s));
    let fill = zeros((s.len() - short.len()) as nat);
    if s.len() > short.len() {
        assert(s[0] == fill[0]);
    } else {
        assert(s =~= short);
    }
}

/// A padded numeral is made of digits, has no needless zero in front, and
/// denotes its number.
pub proof fn lemma_padded_shape(n: nat, width: nat)
    requires
        width >= 1,
    ensures
        all_digits(padded(n, width)),
        padded(n, width).len() >= width,
        padded(n, width).len() > width ==> padded(n, width)[0] != '0',
        decimal_value(padded(n, width)) == n,
        n < 100 && width == 2 ==> padded(n, width).len() == 2,
        n < 1000 && width == 3 ==> padded(n, width).len() == 3,
{
    lemma_decimal_shape(n);
    lemma_value_of_decimal(n);
    let short = decimal(n);
    if short.len() < width {
        let fill = zeros((width - short.len()) as nat);
        lemma_value_skips_zeros((width - short.len()) as nat, short);
        assert forall|i: int| 0 <= i < (fill + short).len() implies is_digit(
            #[trigger] (fill + short)[i],
        ) by {
            if i >= fill.len() {
                assert((fill + short)[i] == short[i - fill.len()]);
            }
        }
    }
}

/// `find_from` stops at the first occurrence and not before.
pub proof fn lemma_find_from_bounds(s: Seq<char>, c: char, from: int)
    requires
        0 <= from <= s.len(),
    ensures
        from <= find_from(s, c, from) <= s.len(),
        find_from(s, c, from) < s.len() ==> s[find_from(s, c, from)] == c,
        forall|i: int| from <= i < find_from(s, c, from) ==> s[i] != c,
    decreases s.len() - from,
{
    if from < s.len() && s[from] != c {
        lemma_find_from_bounds(s, c, from + 1);
    }
}

/// A position that holds `c`, or the end, with no `c` between `from` and it,
/// is what `find_from` gives.
pub proof fn lemma_find_from_at(s: Seq<char>, c: char, from: int, pos: int)
    requires
        0 <= from <= pos <= s.len(),
        forall|i: int| from <= i < pos ==> s[i] != c,
        pos < s.len() ==> s[pos] == c,
    ensures
        find_from(s, c, from) == pos,
    decreases pos - from,
{
    if from < pos {
        lemma_find_from_at(s, c, from + 1, pos);
    }
}

/// Whether `a` and `b` hold the same characters.
pub fn same_text(a: &str, b: &str) -> (same: bool)
    ensures
        same == (a@ == b@),
{
    let left = chars_of(a);
    let right = chars_of(b);
    if left.len() != right.len() {
        return false;
    }
    let mut i: usize = 0;
    while i < left.len()
        invariant
            left@ == a@,
            right@ == b@,
            left.len() == right.len(),
            i <= left.len(),
            forall|k: int| 0 <= k < i ==> left[k] == right[k],
        decreases left.len() - i,
    {
        if left[i] != right[i] {
            assert(a@[i as int] != b@[i as int]);
            return false;
        }
        i = i + 1;
    }
    assert(left@ =~= right@);
    true
}

} // verus!
