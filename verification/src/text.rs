//! Decimal numerals as text.

use vstd::prelude::*;

verus! {

/// The character of a digit below ten.
pub open spec fn digit_char(digit: nat) -> char {
    (48 + digit) as char
}

/// The decimal numeral of `n`: no sign, no leading zero.
pub open spec fn decimal(n: nat) -> Seq<char>
    decreases n,
{
    if n < 10 {
        seq![digit_char(n)]
    } else {
        decimal(n / 10).push(digit_char(n % 10))
    }
}

/// The numeral of one digit.
fn digit_text(digit: u64) -> (text: &'static str)
    requires
        digit < 10,
    ensures
        text@ == seq![digit_char(digit as nat)],
{
    proof {
        reveal_strlit("0");
        reveal_strlit("1");
        reveal_strlit("2");
        reveal_strlit("3");
        reveal_strlit("4");
        reveal_strlit("5");
        reveal_strlit("6");
        reveal_strlit("7");
        reveal_strlit("8");
        reveal_strlit("9");
    }
    match digit {
        0 => "0",
        1 => "1",
        2 => "2",
        3 => "3",
        4 => "4",
        5 => "5",
        6 => "6",
        7 => "7",
        8 => "8",
        _ => "9",
    }
}

/// Write `n` as a decimal numeral.
pub fn decimal_text(n: u64) -> (text: String)
    ensures
        text@ == decimal(n as nat),
    decreases n,
{
    if n < 10 {
        String::from_str(digit_text(n))
    } else {
        let mut text = decimal_text(n / 10);
        text.append(digit_text(n % 10));
        text
    }
}

/// Different numbers have different numerals.
pub proof fn lemma_decimal_injective(a: nat, b: nat)
    requires
        decimal(a) == decimal(b),
    ensures
        a == b,
    decreases a,
{
    let da = decimal(a);
    let db = decimal(b);
    assert(da.last() == digit_char(a % 10));
    assert(db.last() == digit_char(b % 10));
    assert(a % 10 == b % 10);
    if a >= 10 {
        lemma_decimal_nonempty(a / 10);
        assert(b >= 10);
        assert(da.drop_last() == decimal(a / 10));
        assert(db.drop_last() == decimal(b / 10));
        lemma_decimal_injective(a / 10, b / 10);
    } else if b >= 10 {
        lemma_decimal_nonempty(b / 10);
    }
}

proof fn lemma_decimal_nonempty(n: nat)
    ensures
        decimal(n).len() >= 1,
    decreases n,
{
}

/// The number that a text of decimal digits denotes.
pub open spec fn numeral_value(digits: Seq<char>) -> int
    decreases digits.len(),
{
    if digits.len() == 0 {
        0
    } else {
        10 * numeral_value(digits.drop_last()) + (digits.last() as int - '0' as int)
    }
}

/// A numeral denotes its number: it is made of digits alone, begins with no zero
/// but in the numeral of zero, and has the number as its value.
pub proof fn law_numeral_denotes_its_number(n: nat)
    ensures
        decimal(n).len() >= 1,
        forall|i: int| 0 <= i < decimal(n).len() ==> '0' <= #[trigger] decimal(n)[i] <= '9',
        n == 0 ==> decimal(n) == seq!['0'],
        n > 0 ==> decimal(n)[0] != '0',
        numeral_value(decimal(n)) == n,
    decreases n,
{
    if n < 10 {
        assert(decimal(n).drop_last() =~= Seq::empty());
        assert(numeral_value(decimal(n).drop_last()) == 0);
    } else {
        law_numeral_denotes_its_number(n / 10);
        let before = decimal(n / 10);
        assert(decimal(n).drop_last() =~= before);
        assert forall|i: int| 0 <= i < decimal(n).len() implies '0' <= #[trigger] decimal(
            n,
        )[i] <= '9' by {
            if i < before.len() {
                assert(decimal(n)[i] == before[i]);
            }
        }
        assert(decimal(n)[0] == before[0]);
    }
}

} // verus!
