//! Decimal rendering of counters, for the human-readable summaries.

use vstd::prelude::*;

verus! {

/// The character of decimal digit `d` (`d < 10`).
pub open spec fn digit_char(d: nat) -> char {
    (d + 48) as char
}

/// Decimal notation of `n`: most significant digit first, no sign, no
/// leading zeros (a single `0` for zero).
pub open spec fn decimal(n: nat) -> Seq<char>
    decreases n,
{
    if n < 10 {
        seq![digit_char(n)]
    } else {
        decimal(n / 10) + seq![digit_char(n % 10)]
    }
}

/// The one-character text of decimal digit `d`.
fn digit_str(d: u64) -> (s: &'static str)
    requires
        d < 10,
    ensures
        s@ == seq![digit_char(d as nat)],
{
    proof {
        reveal_strlit("0");
        reveal_strlit("1");
        reveal_strlit("2");
        reveal_strlit("3");
        reveal_strlit("4");
        reveal_strlit("5");
        reveal_strlit("6");
        reveal_strlit("7");
        reveal_strlit("8");
        reveal_strlit("9");
    }
    match d {
        0 => "0",
        1 => "1",
        2 => "2",
        3 => "3",
        4 => "4",
        5 => "5",
        6 => "6",
        7 => "7",
        8 => "8",
        _ => "9",
    }
}

/// Appends the decimal notation of `n` to `s`.
pub fn push_decimal(s: &mut String, n: u64)
    ensures
        final(s)@ == old(s)@ + decimal(n as nat),
    decreases n,
{
    if n >= 10 {
        push_decimal(s, n / 10);
    }
    s.append(digit_str(n % 10));
    proof {
        if n >= 10 {
            assert(old(s)@ + decimal(n as nat) =~= old(s)@ + decimal((n / 10) as nat) + seq![
                digit_char((n % 10) as nat),
            ]);
        }
    }
}

/// The number written by a string of decimal digits, most significant
/// first (0 for the empty string).
pub open spec fn digits_value(s: Seq<char>) -> nat
    decreases s.len(),
{
    if s.len() == 0 {
        0
    } else {
        digits_value(s.drop_last()) * 10 + ((s.last() as int) - 48) as nat
    }
}

/// `c` is one of the characters `0` to `9`.
pub open spec fn is_digit(c: char) -> bool {
    48 <= (c as int) <= 57
}

/// `text` holds `label`, then the decimal notation of `value`, then `unit`,
/// one right after the other.
pub open spec fn shows(text: Seq<char>, label: Seq<char>, value: nat, unit: Seq<char>) -> bool {
    exists|before: Seq<char>, after: Seq<char>|
        text == before + label + decimal(value) + unit + after
}

/// The decimal notation of `n` is a non-empty string of digits that reads
/// back as `n`, with no leading zero unless `n` is zero.
pub proof fn lemma_decimal_reads_back(n: nat)
    ensures
        decimal(n).len() >= 1,
        forall|i: int| 0 <= i < decimal(n).len() ==> is_digit(#[trigger] decimal(n)[i]),
        digits_value(decimal(n)) == n,
        decimal(n)[0] == '0' ==> n == 0,
    decreases n,
{
    if n < 10 {
        assert(seq![digit_char(n)].drop_last() =~= Seq::<char>::empty());
        assert((digit_char(n) as int) == n + 48);
        assert(digits_value(Seq::<char>::empty()) == 0);
        assert(decimal(n).last() == digit_char(n));
    } else {
        lemma_decimal_reads_back(n / 10);
        let d = decimal(n / 10);
        assert(decimal(n).drop_last() =~= d);
        assert(decimal(n)[0] == d[0]);
        assert((digit_char(n % 10) as int) == n % 10 + 48);
        assert(n == (n / 10) * 10 + n % 10);
        assert(decimal(n).last() == digit_char(n % 10));
    }
}

/// A text made of some prefix, `label`, the decimal notation of `value`,
/// `unit` and some suffix shows `value` between `label` and `unit`.
pub proof fn lemma_shows(
    before: Seq<char>,
    label: Seq<char>,
    value: nat,
    unit: Seq<char>,
    after: Seq<char>,
)
    ensures
        shows(before + label + decimal(value) + unit + after, label, value, unit),
{
    let text = before + label + decimal(value) + unit + after;
    assert(text == before + label + decimal(value) + unit + after);
}

} // verus!
