//! Numbers in decimal notation.
use num_format::ToFormattedString;
use vstd::prelude::*;

use crate::text::{to_chars, without_char};

verus! {

/// The character of a digit below ten.
pub open spec fn digit_char(d: nat) -> char {
    (48 + d) as char
}

/// The digits `0` to `9`.
pub open spec fn is_digit(c: char) -> bool {
    '0' <= c <= '9'
}

/// The decimal notation of `n`, without leading zeros.
pub open spec fn decimal(n: nat) -> Seq<char>
    decreases n,
{
    if n < 10 {
        seq![digit_char(n)]
    } else {
        decimal(n / 10).push(digit_char(n % 10))
    }
}

/// The number that a sequence of digits denotes.
pub open spec fn digits_value(s: Seq<char>) -> nat
    decreases s.len(),
{
    if s.len() == 0 {
        0
    } else {
        digits_value(s.drop_last()) * 10 + (s.last() as nat - 48) as nat
    }
}

/// `s` holds digits only.
pub open spec fn all_digits(s: Seq<char>) -> bool {
    forall|i: int| 0 <= i < s.len() ==> is_digit(#[trigger] s[i])
}

/// The digits of a number as it may be written: with or without a plus sign.
pub open spec fn without_plus(s: Seq<char>) -> Seq<char> {
    if s.len() > 0 && s[0] == '+' {
        s.drop_first()
    } else {
        s
    }
}

/// The number up to `max` that `s` denotes: digits, at least one of them,
/// after at most one plus sign.
pub open spec fn parsed(s: Seq<char>, max: nat) -> Option<nat> {
    let digits = without_plus(s);
    if digits.len() > 0 && all_digits(digits) && digits_value(digits) <= max {
        Some(digits_value(digits))
    } else {
        None
    }
}

/// The three digits of a number below a thousand.
pub open spec fn three_digits(n: nat) -> Seq<char> {
    seq![digit_char(n / 100), digit_char(n / 10 % 10), digit_char(n % 10)]
}

/// The decimal notation of `n` with a comma before each group of three digits
/// but the first.
pub open spec fn grouped(n: nat) -> Seq<char>
    decreases n,
{
    if n < 1000 {
        decimal(n)
    } else {
        grouped(n / 1000) + seq![','] + three_digits(n % 1000)
    }
}

/// The character of a digit.
fn digit(d: u64) -> (c: char)
    requires
        d < 10,
    ensures
        c == digit_char(d as nat),
{
    (48u8 + d as u8) as char
}

/// The decimal notation of `n`.
pub fn to_decimal(n: u64) -> (r: String)
    ensures
        r@ == decimal(n as nat),
    decreases n,
{
    if n < 10 {
        let mut out = String::new();
        out.push(digit(n));
        assert(out@ =~= seq![digit_char(n as nat)]);
        out
    } else {
        let mut out = to_decimal(n / 10);
        out.push(digit(n % 10));
        out
    }
}

/// The number up to `max` that `s` denotes.
pub fn parse_up_to(s: &str, max: u64) -> (r: Option<u64>)
    ensures
        match r {
            Some(n) => parsed(s@, max as nat) == Some(n as nat),
            None => parsed(s@, max as nat) is None,
        },
{
    let chars = to_chars(s);
    let start: usize = if chars.len() > 0 && chars[0] == '+' { 1 } else { 0 };
    let ghost digits = without_plus(s@);
    assert(digits =~= s@.skip(start as int));
    if chars.len() == start {
        return None;
    }
    let mut value: u64 = 0;
    let mut i: usize = start;
    while i < chars.len()
        invariant
            chars@ == s@,
            digits == without_plus(s@),
            digits == s@.skip(start as int),
            start <= i <= chars.len(),
            value <= max,
            value == digits_value(digits.take(i - start)),
            forall|k: int| 0 <= k < i - start ==> is_digit(#[trigger] digits[k]),
        decreases chars.len() - i,
    {
        let c = chars[i];
        let ghost k = i - start;
        assert(digits[k] == c);
        if c < '0' || '9' < c {
            return None;
        }
        let d: u64 = c as u64 - 48;
        proof {
            assert(digits.take(k + 1).drop_last() =~= digits.take(k));
            if all_digits(digits) {
                lemma_prefix_value(digits, k + 1);
            }
        }
        if d > max || value > (max - d) / 10 {
            assert(value * 10 + d > max);
            return None;
        }
        value = value * 10 + d;
        i = i + 1;
    }
    assert(digits.take(digits.len() as int) =~= digits);
    Some(value)
}

/// `num_format::ToFormattedString::to_formatted_string` with `Locale::en`
/// writes a `u32` in decimal notation, with a comma between groups of three
/// digits counted from the right.
#[verifier::external_body]
pub(crate) fn to_grouped(n: u32) -> (r: String)
    ensures
        r@ == grouped(n as nat),
{
    n.to_formatted_string(&num_format::Locale::en)
}

/// A sequence of digits denotes at least what its first `k` digits denote.
proof fn lemma_prefix_value(s: Seq<char>, k: int)
    requires
        all_digits(s),
        0 <= k <= s.len(),
    ensures
        digits_value(s.take(k)) <= digits_value(s),
    decreases s.len(),
{
    if k == s.len() {
        assert(s.take(k) =~= s);
    } else {
        assert(s.drop_last().take(k) =~= s.take(k));
        lemma_prefix_value(s.drop_last(), k);
    }
}

/// The decimal notation of a number is made of digits, at least one.
pub proof fn law_decimal_is_digits(n: nat)
    ensures
        all_digits(decimal(n)),
        decimal(n).len() > 0,
    decreases n,
{
    if n >= 10 {
        law_decimal_is_digits(n / 10);
    }
}

/// The decimal notation of `n` denotes `n`.
pub proof fn law_decimal_denotes(n: nat)
    ensures
        digits_value(decimal(n)) == n,
    decreases n,
{
    if n < 10 {
        assert(decimal(n).drop_last() =~= Seq::empty());
        assert(digits_value(Seq::empty()) == 0);
    } else {
        law_decimal_denotes(n / 10);
        assert(decimal(n).drop_last() =~= decimal(n / 10));
    }
}

/// Two numbers with the same decimal notation are equal.
pub proof fn law_decimal_is_injective(m: nat, n: nat)
    requires
        decimal(m) == decimal(n),
    ensures
        m == n,
{
    law_decimal_denotes(m);
    law_decimal_denotes(n);
}

/// Reading the decimal notation of a number gives the number back.
pub proof fn law_decimal_parses_back(n: nat, max: nat)
    requires
        n <= max,
    ensures
        parsed(decimal(n), max) == Some(n),
{
    law_decimal_is_digits(n);
    law_decimal_denotes(n);
    assert(is_digit(decimal(n)[0]));
}

/// Without its commas, the grouped notation of a number is its decimal
/// notation.
pub proof fn law_grouped_without_commas(n: nat)
    ensures
        without_char(grouped(n), ',') == decimal(n),
    decreases n,
{
    if n < 1000 {
        law_decimal_is_digits(n);
        lemma_nothing_to_remove(decimal(n), ',');
    } else {
        law_grouped_without_commas(n / 1000);
        lemma_last_three(n);
        lemma_comma_removed(grouped(n / 1000), decimal(n / 1000), n % 1000);
    }
}

/// Removing the comma between `head` and a group of three digits.
proof fn lemma_comma_removed(head: Seq<char>, plain: Seq<char>, group: nat)
    requires
        group < 1000,
        without_char(head, ',') == plain,
    ensures
        without_char(head + seq![','] + three_digits(group), ',') == plain + three_digits(group),
{
    let tail = three_digits(group);
    lemma_without_char_push(head, ',', ',');
    assert(head.push(',') =~= head + seq![',']);
    lemma_without_char_add(head.push(','), tail, ',');
    lemma_nothing_to_remove(tail, ',');
}

/// Removing `c` from a sequence that is one character longer.
proof fn lemma_without_char_push(s: Seq<char>, x: char, c: char)
    ensures
        without_char(s.push(x), c) == (if x != c {
            without_char(s, c).push(x)
        } else {
            without_char(s, c)
        }),
{
    reveal(Seq::filter);
    assert(s.push(x).drop_last() =~= s);
}

/// Removing `c` from two sequences, one behind the other.
proof fn lemma_without_char_add(s: Seq<char>, t: Seq<char>, c: char)
    ensures
        without_char(s + t, c) == without_char(s, c) + without_char(t, c),
    decreases t.len(),
{
    if t.len() == 0 {
        reveal(Seq::filter);
        assert(s + t =~= s);
        assert(without_char(t, c) =~= Seq::empty());
        assert(without_char(s, c) + without_char(t, c) =~= without_char(s, c));
    } else {
        lemma_without_char_add(s, t.drop_last(), c);
        assert(s + t =~= (s + t.drop_last()).push(t.last()));
        assert(t =~= t.drop_last().push(t.last()));
        lemma_without_char_push(s + t.drop_last(), t.last(), c);
        lemma_without_char_push(t.drop_last(), t.last(), c);
        assert(without_char(s + t, c) =~= without_char(s, c) + without_char(t, c));
    }
}

/// A sequence without a `c` stays as it is when every `c` is removed.
proof fn lemma_nothing_to_remove(s: Seq<char>, c: char)
    requires
        forall|i: int| 0 <= i < s.len() ==> #[trigger] s[i] != c,
    ensures
        without_char(s, c) == s,
    decreases s.len(),
{
    reveal(Seq::filter);
    if s.len() > 0 {
        lemma_nothing_to_remove(s.drop_last(), c);
        assert(s.drop_last().push(s.last()) =~= s);
    }
}

/// The last three digits of a number from a thousand on.
proof fn lemma_last_three(n: nat)
    requires
        n >= 1000,
    ensures
        decimal(n) == decimal(n / 1000) + three_digits(n % 1000),
{
    let a = n / 10;
    let b = a / 10;
    assert(b / 10 == n / 1000);
    assert(n % 1000 / 100 == b % 10);
    assert(n % 1000 / 10 % 10 == a % 10);
    assert(n % 1000 % 10 == n % 10);
    assert(decimal(b) == decimal(b / 10).push(digit_char(b % 10)));
    assert(decimal(a) == decimal(b).push(digit_char(a % 10)));
    assert(decimal(n) =~= decimal(n / 1000) + three_digits(n % 1000));
}

/// A number below ten is written as its digit, and a digit behind a number
/// stands for ten times the number and the digit.
pub proof fn law_decimal_by_digits(n: nat, d: nat)
    requires
        d < 10,
    ensures
        decimal(d) == seq![('0' as nat + d) as char],
        n > 0 ==> decimal(10 * n + d) == decimal(n).push(('0' as nat + d) as char),
{
    assert((10 * n + d) / 10 == n && (10 * n + d) % 10 == d);
}

/// No number but zero is written with a zero in front.
pub proof fn law_no_leading_zero(n: nat)
    requires
        n > 0,
    ensures
        decimal(n)[0] != '0',
    decreases n,
{
    if n >= 10 {
        law_no_leading_zero(n / 10);
        law_decimal_is_digits(n / 10);
    }
}

/// A digit behind others makes ten times their number and the digit.
pub proof fn law_value_by_digits(s: Seq<char>, c: char)
    requires
        is_digit(c),
    ensures
        digits_value(Seq::empty()) == 0,
        digits_value(s.push(c)) == 10 * digits_value(s) + (c as nat - '0' as nat),
{
    assert(s.push(c).drop_last() =~= s);
}

/// A digit is what a number below ten is written with.
pub proof fn law_digits_write_numbers(c: char)
    ensures
        is_digit(c) <==> exists|d: nat| d < 10 && #[trigger] decimal(d) == seq![c],
{
    if is_digit(c) {
        let d = (c as nat - 48) as nat;
        assert(decimal(d) =~= seq![c]);
    } else if exists|d: nat| d < 10 && #[trigger] decimal(d) == seq![c] {
        let d = choose|d: nat| d < 10 && #[trigger] decimal(d) == seq![c];
        assert(seq![c][0] == decimal(d)[0]);
    }
}

/// A text is read as a number up to the largest one exactly where it is digits,
/// at least one, with or without a plus sign in front.
pub proof fn law_numbers_are_read(digits: Seq<char>, max: nat)
    requires
        digits.len() > 0,
        all_digits(digits),
    ensures
        parsed(digits, max) == (if digits_value(digits) <= max {
            Some(digits_value(digits))
        } else {
            None
        }),
        parsed(seq!['+'] + digits, max) == parsed(digits, max),
{
    assert(is_digit(digits[0]));
    assert((seq!['+'] + digits).drop_first() =~= digits);
}

/// Nothing else is read as a number.
pub proof fn law_nothing_else_is_read(s: Seq<char>, max: nat)
    requires
        parsed(s, max) is Some,
    ensures
        parsed(s, max)->0 <= max,
        (s.len() > 0 && all_digits(s)) || (s.len() > 1 && s[0] == '+' && all_digits(s.skip(1))),
{
    assert(s.len() > 0 ==> s.drop_first() =~= s.skip(1));
}

/// A comma stands before every third digit from the right, and nowhere else.
pub proof fn law_commas_are_placed(n: nat, i: int)
    requires
        0 <= i < grouped(n).len(),
    ensures
        grouped(n)[i] == ',' <==> (grouped(n).len() - i) % 4 == 0,
        grouped(n)[0] != ',',
    decreases n,
{
    if n < 1000 {
        law_decimal_is_digits(n);
        lemma_short_decimal(n);
        assert(is_digit(decimal(n)[i]) && is_digit(decimal(n)[0]));
    } else {
        let head = grouped(n / 1000);
        let tail = three_digits(n % 1000);
        let k = grouped(n).len() - i;
        assert(grouped(n).len() == head.len() + 4);
        lemma_grouped_is_written(n / 1000);
        law_commas_are_placed(n / 1000, 0);
        assert(grouped(n)[0] == head[0]);
        if i < head.len() {
            law_commas_are_placed(n / 1000, i);
            assert(grouped(n)[i] == head[i]);
            assert((k - 4) % 4 == k % 4);
        } else if i > head.len() {
            assert(grouped(n)[i] == tail[i - head.len() - 1]);
            lemma_three_digits(n % 1000, i - head.len() - 1);
        }
    }
}

/// A number below a thousand has at most three digits.
proof fn lemma_short_decimal(n: nat)
    requires
        n < 1000,
    ensures
        1 <= decimal(n).len() <= 3,
{
    reveal_with_fuel(decimal, 4);
}

/// Something is written of every number.
proof fn lemma_grouped_is_written(n: nat)
    ensures
        grouped(n).len() > 0,
{
    law_decimal_is_digits(n);
}

/// Each of the three digits is one.
proof fn lemma_three_digits(n: nat, i: int)
    requires
        n < 1000,
        0 <= i < 3,
    ensures
        is_digit(three_digits(n)[i]),
{
}

/// A character is removed wherever it stands, and every other character stays
/// in its order.
pub proof fn law_only_the_character_is_removed(a: Seq<char>, x: char, b: Seq<char>, c: char)
    ensures
        without_char(Seq::empty(), c) == Seq::<char>::empty(),
        without_char(a + seq![x] + b, c) == without_char(a, c) + (if x == c {
            Seq::empty()
        } else {
            seq![x]
        }) + without_char(b, c),
{
    lemma_nothing_to_remove(Seq::empty(), c);
    lemma_without_char_add(a + seq![x], b, c);
    lemma_without_char_push(a, x, c);
    assert(a + seq![x] =~= a.push(x));
    assert(without_char(a, c).push(x) =~= without_char(a, c) + seq![x]);
    assert(without_char(a, c) + Seq::empty() =~= without_char(a, c));
}

/// The grouped notation of a number begins with a digit, which is a zero only
/// where the number is zero.
pub proof fn law_grouped_begins(n: nat)
    ensures
        grouped(n).len() > 0,
        is_digit(grouped(n)[0]),
        n > 0 ==> grouped(n)[0] != '0',
        n == 0 ==> grouped(n).len() == 1,
    decreases n,
{
    law_decimal_is_digits(n);
    if n < 1000 {
        assert(is_digit(decimal(n)[0]));
        if n > 0 {
            law_no_leading_zero(n);
        }
    } else {
        law_grouped_begins(n / 1000);
    }
}

/// The grouped notation of a number is digits and commas.
pub proof fn law_grouped_is_digits_and_commas(n: nat)
    ensures
        forall|i: int|
            0 <= i < grouped(n).len() ==> is_digit(#[trigger] grouped(n)[i]) || grouped(n)[i]
                == ',',
    decreases n,
{
    if n < 1000 {
        law_decimal_is_digits(n);
    } else {
        let head = grouped(n / 1000);
        law_grouped_is_digits_and_commas(n / 1000);
        assert forall|i: int| 0 <= i < grouped(n).len() implies is_digit(#[trigger] grouped(n)[i])
            || grouped(n)[i] == ',' by {
            if i < head.len() {
                assert(grouped(n)[i] == head[i]);
            } else if i > head.len() {
                lemma_three_digits(n % 1000, i - head.len() - 1);
            }
        }
    }
}

} // verus!
