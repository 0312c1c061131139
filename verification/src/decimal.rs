//! Decimal rendering of unsigned integers, as `{}` prints them.

use vstd::prelude::*;
use crate::hex::push_char;

verus! {

/// The decimal digit for a value below ten.
pub open spec fn decimal_digit(d: nat) -> char {
    (d + 48) as char
}

/// The decimal rendering of `n`: no sign, no leading zeros, `0` for zero.
pub open spec fn spec_decimal(n: nat) -> Seq<char>
    decreases n,
{
    if n < 10 {
        seq![decimal_digit(n)]
    } else {
        spec_decimal(n / 10).push(decimal_digit(n % 10))
    }
}

/// Appends the decimal rendering of `n` to `s`.
pub(crate) fn push_decimal(s: &mut String, n: u64)
    ensures
        final(s)@ == old(s)@ + spec_decimal(n as nat),
    decreases n,
{
    if n < 10 {
        push_char(s, ((n as u8) + 48) as char);
        assert(s@ =~= old(s)@ + spec_decimal(n as nat));
    } else {
        push_decimal(s, n / 10);
        push_char(s, (((n % 10) as u8) + 48) as char);
        assert(s@ =~= old(s)@ + spec_decimal(n as nat));
    }
}

/// Renders `n` in decimal.
pub fn decimal(n: u64) -> (s: String)
    ensures
        s@ == spec_decimal(n as nat),
{
    let mut s = String::new();
    push_decimal(&mut s, n);
    assert(s@ =~= spec_decimal(n as nat));
    s
}

/// A rendering consists of the digits `0-9` only, and begins with `0` only when
/// it is the rendering of zero.
pub proof fn lemma_decimal_digits(n: nat)
    ensures
        spec_decimal(n).len() >= 1,
        forall|k: int| 0 <= k < spec_decimal(n).len() ==> '0' <= #[trigger] spec_decimal(n)[k] <= '9',
        spec_decimal(n)[0] == '0' <==> n == 0,
    decreases n,
{
    if n >= 10 {
        lemma_decimal_digits(n / 10);
        assert forall|k: int| 0 <= k < spec_decimal(n).len() implies '0' <= #[trigger] spec_decimal(n)[k] <= '9' by {
            if k < spec_decimal(n / 10).len() {
                assert(spec_decimal(n)[k] == spec_decimal(n / 10)[k]);
            }
        }
        assert(spec_decimal(n)[0] == spec_decimal(n / 10)[0]);
    }
}

/// The number that a string of decimal digits denotes.
pub open spec fn digits_value(digits: Seq<char>) -> int
    decreases digits.len(),
{
    if digits.len() == 0 {
        0
    } else {
        digits_value(digits.drop_last()) * 10 + (digits.last() as int - 48)
    }
}

proof fn lemma_digit_value(d: nat)
    requires
        d < 10,
    ensures
        decimal_digit(d) as int == d + 48,
{
    assert(((d + 48) as char) as int == d + 48);
}

/// A rendering denotes the number rendered, so distinct numbers are rendered differently.
pub proof fn lemma_decimal_value(n: nat)
    ensures
        digits_value(spec_decimal(n)) == n,
    decreases n,
{
    lemma_digit_value(n % 10);
    let s = spec_decimal(n);
    if n < 10 {
        assert(s.drop_last() =~= Seq::<char>::empty());
        assert(digits_value(s.drop_last()) == 0);
        assert(s.last() == decimal_digit(n % 10));
    } else {
        lemma_decimal_value(n / 10);
        assert(s.drop_last() =~= spec_decimal(n / 10));
        assert(s.last() == decimal_digit(n % 10));
        assert(n == (n / 10) * 10 + n % 10);
    }
}

/// Distinct numbers have distinct renderings.
pub proof fn lemma_decimal_injective(a: nat, b: nat)
    requires
        spec_decimal(a) == spec_decimal(b),
    ensures
        a == b,
{
    lemma_decimal_value(a);
    lemma_decimal_value(b);
}

/// `d` is the decimal numeral of `n`: one or more digits, no leading zero, denoting `n`.
pub open spec fn denotes(d: Seq<char>, n: nat) -> bool {
    &&& d.len() >= 1
    &&& forall|k: int| 0 <= k < d.len() ==> '0' <= #[trigger] d[k] <= '9'
    &&& (d[0] == '0' ==> d.len() == 1)
    &&& digits_value(d) == n
}

/// What `decimal` returns is the numeral of its input.
pub proof fn lemma_decimal_denotes(n: nat)
    ensures
        denotes(spec_decimal(n), n),
{
    lemma_decimal_digits(n);
    lemma_decimal_value(n);
}

} // verus!
