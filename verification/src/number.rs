//! Numbers that are carried and shown.
use vstd::prelude::*;

verus! {

/// A double-precision number, held by its bit pattern. The library carries such numbers through
/// and never computes with them.
#[derive(Debug, Clone, Copy, PartialEq, Eq, Structural)]
pub struct Double {
    pub bits: u64,
}

impl DeepView for Double {
    type V = Double;

    open spec fn deep_view(&self) -> Double {
        *self
    }
}

/// The digit of `n`, which is below 10.
pub open spec fn digit(n: nat) -> char {
    (n + '0' as nat) as char
}

/// `n` in decimal digits, without leading zeros.
pub open spec fn decimal_of(n: nat) -> Seq<char>
    decreases n,
{
    if n < 10 {
        seq![digit(n)]
    } else {
        decimal_of(n / 10).push(digit(n % 10))
    }
}

/// `n` below 100 in two decimal digits.
pub open spec fn two_digits_of(n: nat) -> Seq<char> {
    seq![digit(n / 10), digit(n % 10)]
}

/// `n` in decimal, a minus sign before a negative one.
pub open spec fn signed_of(n: int) -> Seq<char> {
    if n < 0 {
        seq!['-'] + decimal_of((-n) as nat)
    } else {
        decimal_of(n as nat)
    }
}

fn digit_char(n: u8) -> (r: char)
    requires
        n < 10,
    ensures
        r == digit(n as nat),
{
    (48 + n) as char
}

/// `n` in decimal.
pub fn decimal(n: u64) -> (r: String)
    ensures
        r@ == decimal_of(n as nat),
    decreases n,
{
    if n < 10 {
        let mut out: String = String::new();
        out.push(digit_char(n as u8));
        assert(out@ == seq![digit(n as nat)]);
        out
    } else {
        let mut out = decimal(n / 10);
        out.push(digit_char((n % 10) as u8));
        out
    }
}

/// `n` below 100 in two decimal digits.
pub fn two_digits(n: u64) -> (r: String)
    requires
        n < 100,
    ensures
        r@ == two_digits_of(n as nat),
{
    let mut out: String = String::new();
    out.push(digit_char((n / 10) as u8));
    out.push(digit_char((n % 10) as u8));
    assert(out@ == two_digits_of(n as nat));
    out
}

/// `n` in decimal, a minus sign before a negative one.
pub fn signed(n: i64) -> (r: String)
    ensures
        r@ == signed_of(n as int),
{
    if n < 0 {
        let size: u64 = (-(n as i128)) as u64;
        let mut out: String = String::new();
        out.push('-');
        let rest = decimal(size);
        out.append(rest.as_str());
        assert(out@ == seq!['-'] + rest@);
        out
    } else {
        decimal(n as u64)
    }
}

/// The number that decimal digits stand for.
pub open spec fn value_of(s: Seq<char>) -> int
    decreases s.len(),
{
    if s.len() == 0 {
        0
    } else {
        10 * value_of(s.drop_last()) + (s.last() as int - '0' as int)
    }
}

/// A number in decimal is made of digits, begins with no zero unless it is zero, and stands for
/// the number: no two numbers look alike.
pub proof fn law_decimal(n: nat)
    ensures
        decimal_of(n).len() > 0,
        forall|i: int| 0 <= i < decimal_of(n).len() ==> '0' <= #[trigger] decimal_of(n)[i] <= '9',
        value_of(decimal_of(n)) == n,
        n > 0 ==> decimal_of(n)[0] != '0',
    decreases n,
{
    reveal_with_fuel(value_of, 2);
    if n < 10 {
        assert(seq![digit(n)].drop_last() == Seq::<char>::empty());
    } else {
        law_decimal(n / 10);
        assert(decimal_of(n).drop_last() == decimal_of(n / 10));
        assert forall|i: int| 0 <= i < decimal_of(n).len() implies '0'
            <= #[trigger] decimal_of(n)[i] <= '9' by {
            if i < decimal_of(n / 10).len() {
                assert(decimal_of(n)[i] == decimal_of(n / 10)[i]);
            }
        }
    }
}

/// A number below 100 in two digits is two digits that stand for it.
pub proof fn law_two_digits(n: nat)
    requires
        n < 100,
    ensures
        two_digits_of(n).len() == 2,
        '0' <= two_digits_of(n)[0] <= '9',
        '0' <= two_digits_of(n)[1] <= '9',
        value_of(two_digits_of(n)) == n,
{
    reveal_with_fuel(value_of, 3);
    let s = two_digits_of(n);
    assert(s.drop_last().drop_last() == Seq::<char>::empty());
}

/// A minus sign stands before a negative number and before no other; what follows is its size.
pub proof fn law_signed(n: int)
    ensures
        signed_of(n)[0] == '-' <==> n < 0,
        n < 0 ==> value_of(signed_of(n).skip(1)) == -n,
        n >= 0 ==> value_of(signed_of(n)) == n,
{
    if n < 0 {
        law_decimal((-n) as nat);
        assert(signed_of(n).skip(1) == decimal_of((-n) as nat));
    } else {
        law_decimal(n as nat);
        assert('0' <= decimal_of(n as nat)[0] <= '9');
    }
}

} // verus!
