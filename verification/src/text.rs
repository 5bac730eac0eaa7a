//! Decimal numbers as text: how counts are written into messages and read
//! back from what participants send.

use vstd::prelude::*;

verus! {

/// The character that stands for the digit `d`.
pub open spec fn digit_char(d: nat) -> char
    recommends
        d < 10,
{
    if d == 0 {
        '0'
    } else if d == 1 {
        '1'
    } else if d == 2 {
        '2'
    } else if d == 3 {
        '3'
    } else if d == 4 {
        '4'
    } else if d == 5 {
        '5'
    } else if d == 6 {
        '6'
    } else if d == 7 {
        '7'
    } else if d == 8 {
        '8'
    } else {
        '9'
    }
}

/// The decimal numeral of `n`: no sign, no leading zero except for zero itself.
pub open spec fn decimal(n: nat) -> Seq<char>
    decreases n,
{
    if n < 10 {
        seq![digit_char(n)]
    } else {
        decimal(n / 10).push(digit_char(n % 10))
    }
}

fn digit_str(d: usize) -> (s: &'static str)
    requires
        d < 10,
    ensures
        s@ == seq![digit_char(d as nat)],
{
    proof {
        reveal_strlit("0");
        reveal_strlit("1");
        reveal_strlit("2");
        reveal_strlit("3");
        reveal_strlit("4");
        reveal_strlit("5");
        reveal_strlit("6");
        reveal_strlit("7");
        reveal_strlit("8");
        reveal_strlit("9");
    }
    let s = if d == 0 {
        "0"
    } else if d == 1 {
        "1"
    } else if d == 2 {
        "2"
    } else if d == 3 {
        "3"
    } else if d == 4 {
        "4"
    } else if d == 5 {
        "5"
    } else if d == 6 {
        "6"
    } else if d == 7 {
        "7"
    } else if d == 8 {
        "8"
    } else {
        "9"
    };
    assert(s@ =~= seq![digit_char(d as nat)]);
    s
}

/// Writes the decimal numeral of `n` at the end of `out`.
pub fn push_decimal(out: &mut String, n: usize)
    ensures
        final(out)@ == old(out)@ + decimal(n as nat),
    decreases n,
{
    if n >= 10 {
        push_decimal(out, n / 10);
    }
    out.append(digit_str(n % 10));
    assert(out@ =~= old(out)@ + decimal(n as nat));
}

/// Whether `c` is one of the ten decimal digits.
pub open spec fn is_digit(c: char) -> bool {
    '0' <= c && c <= '9'
}

/// The number that the digit `c` stands for.
pub open spec fn digit_value(c: char) -> nat
    recommends
        is_digit(c),
{
    (c as u32 - '0' as u32) as nat
}

/// Whether `s` holds decimal digits and nothing else.
pub open spec fn all_digits(s: Seq<char>) -> bool {
    forall|i: int| 0 <= i < s.len() ==> is_digit(#[trigger] s[i])
}

/// The number that the digits of `s` spell, the most significant first.
pub open spec fn digits_value(s: Seq<char>) -> nat
    decreases s.len(),
{
    if s.len() == 0 {
        0
    } else {
        digits_value(s.drop_last()) * 10 + digit_value(s.last())
    }
}

/// What is left of `s` once one leading plus sign, if there is one, is taken off.
pub open spec fn without_sign(s: Seq<char>) -> Seq<char> {
    if s.len() > 0 && s[0] == '+' {
        s.drop_first()
    } else {
        s
    }
}

/// The count that `s` states: `s` is an optional plus sign and then one
/// decimal digit or more, with nothing before, between or after.
pub open spec fn parsed_count(s: Seq<char>) -> Option<nat> {
    let digits = without_sign(s);
    if digits.len() > 0 && all_digits(digits) {
        Some(digits_value(digits))
    } else {
        None
    }
}

fn digit_of(c: char) -> (d: Option<usize>)
    ensures
        d == (if is_digit(c) { Some(digit_value(c) as usize) } else { None::<usize> }),
{
    if '0' <= c && c <= '9' {
        Some((c as u32 - '0' as u32) as usize)
    } else {
        None
    }
}

/// A prefix of a run of digits spells no more than the whole run.
proof fn lemma_digits_value_prefix(s: Seq<char>, k: int)
    requires
        0 <= k <= s.len(),
    ensures
        digits_value(s.subrange(0, k)) <= digits_value(s),
    decreases s.len() - k,
{
    if k == s.len() {
        assert(s.subrange(0, k) =~= s);
    } else {
        lemma_digits_value_prefix(s, k + 1);
        assert(s.subrange(0, k + 1).drop_last() =~= s.subrange(0, k));
    }
}

/// Reads a count: an optional plus sign and then decimal digits, nothing
/// else. A text of another shape, or a number too large for `usize`, gives
/// `None`.
pub fn parse_count(text: &str) -> (count: Option<usize>)
    ensures
        count == match parsed_count(text@) {
            Some(n) => if n <= usize::MAX {
                Some(n as usize)
            } else {
                None::<usize>
            },
            None => None::<usize>,
        },
{
    let ghost s = text@;
    let ghost digits = without_sign(s);
    let mut value: usize = 0;
    let mut signed = false;
    let mut any = false;
    for c in it: text.chars()
        invariant
            s == text@,
            it.seq() == s,
            digits == without_sign(s),
            signed ==> it.index() >= 1 && s[0] == '+',
            any && !signed ==> s[0] != '+',
            any == (it.index() > (if signed { 1int } else { 0 })),
            all_digits(digits.subrange(0, it.index() - (if signed { 1int } else { 0 }))),
            value == digits_value(
                digits.subrange(0, it.index() - (if signed { 1int } else { 0 })),
            ),
    {
        if !any && !signed && c == '+' {
            signed = true;
        } else {
            let ghost seen = it.index() - (if signed { 1int } else { 0 });
            assert(digits[seen] == c);
            match digit_of(c) {
                None => {
                    assert(!is_digit(digits[seen]));
                    return None;
                },
                Some(d) => {
                    proof {
                        let longer = digits.subrange(0, seen + 1);
                        assert(longer.drop_last() =~= digits.subrange(0, seen));
                        assert(longer.last() == c);
                        assert(digits_value(longer) == value * 10 + d);
                        lemma_digits_value_prefix(digits, seen + 1);
                    }
                    if value > (usize::MAX - d) / 10 {
                        return None;
                    }
                    value = value * 10 + d;
                    any = true;
                },
            }
        }
    }
    if any {
        assert(digits.subrange(0, digits.len() as int) =~= digits);
        Some(value)
    } else {
        None
    }
}

/// The numeral of a number is made of digits, at least one, and spells that
/// number.
pub proof fn lemma_decimal_spells(n: nat)
    ensures
        decimal(n).len() > 0,
        all_digits(decimal(n)),
        digits_value(decimal(n)) == n,
    decreases n,
{
    let numeral = decimal(n);
    if n < 10 {
        assert(numeral.drop_last() =~= Seq::<char>::empty());
        assert(digits_value(numeral.drop_last()) == 0);
    } else {
        lemma_decimal_spells(n / 10);
        assert(numeral.drop_last() =~= decimal(n / 10));
        assert(is_digit(digit_char(n % 10)));
        assert forall|i: int| 0 <= i < numeral.len() implies is_digit(#[trigger] numeral[i]) by {
            if i < numeral.len() - 1 {
                assert(numeral[i] == decimal(n / 10)[i]);
            }
        }
    }
}

/// Reading gives back what writing has written: the numeral of a number is
/// read as that number.
pub proof fn lemma_parse_reads_decimal(n: nat)
    ensures
        parsed_count(decimal(n)) == Some(n),
{
    lemma_decimal_spells(n);
    assert(is_digit(decimal(n)[0]));
}

} // verus!
