//! Ids of recordings and jobs: UUIDs as 128-bit numbers, and their text form.
use vstd::prelude::*;

verus! {

/// The lower-case hexadecimal digit of `n`.
pub open spec fn hex_digit(n: int) -> char {
    if n < 10 {
        (n + '0' as int) as char
    } else {
        (n - 10 + 'a' as int) as char
    }
}

/// The `k`-th of the 32 hexadecimal digits of `id`, the highest first.
pub open spec fn id_digit(id: u128, k: int) -> int {
    (id as int / vstd::arithmetic::power::pow(16, (31 - k) as nat)) % 16
}

/// Whether a hyphen stands at `i` in the text of an id.
pub open spec fn hyphen_at(i: int) -> bool {
    i == 8 || i == 13 || i == 18 || i == 23
}

/// How many hyphens stand before `i` in the text of an id.
pub open spec fn hyphens_before(i: int) -> int {
    if i <= 8 {
        0
    } else if i <= 13 {
        1
    } else if i <= 18 {
        2
    } else if i <= 23 {
        3
    } else {
        4
    }
}

/// The text of an id: 32 hexadecimal digits in groups of 8, 4, 4, 4 and 12, with hyphens between.
pub open spec fn id_text_of(id: u128) -> Seq<char> {
    Seq::new(
        36,
        |i: int|
            if hyphen_at(i) {
                '-'
            } else {
                hex_digit(id_digit(id, i - hyphens_before(i)))
            },
    )
}

/// The text of an id, by `uuid::Uuid::from_u128` and the `Display` of `uuid::Uuid`: the
/// hyphenated form in lower case.
#[verifier::external_body]
pub(crate) fn id_text(id: u128) -> (r: String)
    ensures
        r@ == id_text_of(id),
{
    uuid::Uuid::from_u128(id).to_string()
}

/// Whether `id` has the version and the variant of a random UUID.
pub open spec fn is_random_id(id: u128) -> bool {
    &&& id_digit(id, 12) == 4
    &&& 8 <= id_digit(id, 16) < 12
}

/// A fresh random id, by `uuid::Uuid::new_v4`. Which one comes is left to chance; every one has
/// version 4 and the standard variant. `new_v4` panics on a machine that has no source of
/// randomness.
#[verifier::external_body]
pub(crate) fn new_id() -> (r: u128)
    ensures
        is_random_id(r),
{
    uuid::Uuid::new_v4().as_u128()
}

// ---------------------------------------------------------------------------
// Laws
// ---------------------------------------------------------------------------

/// Where the `k`-th digit stands in the text of an id.
pub open spec fn place_of(k: int) -> int {
    if k < 8 {
        k
    } else if k < 12 {
        k + 1
    } else if k < 16 {
        k + 2
    } else if k < 20 {
        k + 3
    } else {
        k + 4
    }
}

/// Ids that agree in their last digits and in what is before them are the same.
proof fn lemma_digits(a: u128, b: u128, j: nat)
    requires
        j <= 32,
        forall|k: int| 0 <= k < 32 ==> #[trigger] id_digit(a, k) == id_digit(b, k),
    ensures
        a as int / vstd::arithmetic::power::pow(16, j) == b as int / vstd::arithmetic::power::pow(
            16,
            j,
        ),
    decreases 32 - j,
{
    let p = vstd::arithmetic::power::pow(16, j);
    vstd::arithmetic::power::lemma_pow_positive(16, j);
    if j == 32 {
        lemma_pow_32();
        vstd::arithmetic::div_mod::lemma_basic_div(a as int, p);
        vstd::arithmetic::div_mod::lemma_basic_div(b as int, p);
    } else {
        lemma_digits(a, b, j + 1);
        let q = vstd::arithmetic::power::pow(16, j + 1);
        vstd::arithmetic::power::lemma_pow_adds(16, j, 1);
        vstd::arithmetic::power::lemma_pow1(16);
        assert(q == p * 16);
        vstd::arithmetic::div_mod::lemma_div_denominator(a as int, p, 16);
        vstd::arithmetic::div_mod::lemma_div_denominator(b as int, p, 16);
        let x = a as int / p;
        let y = b as int / p;
        assert(x / 16 == y / 16);
        assert(id_digit(a, 31 - j) == id_digit(b, 31 - j));
        assert(x % 16 == y % 16);
        assert(x == 16 * (x / 16) + x % 16);
        assert(y == 16 * (y / 16) + y % 16);
    }
}

proof fn lemma_pow_32()
    ensures
        vstd::arithmetic::power::pow(16, 32) == 0x1_0000_0000_0000_0000_0000_0000_0000_0000int,
{
    vstd::arithmetic::power::lemma_pow1(16);
    vstd::arithmetic::power::lemma_pow_adds(16, 1, 1);
    lemma_square(vstd::arithmetic::power::pow(16, 1), 16);
    vstd::arithmetic::power::lemma_pow_adds(16, 2, 2);
    lemma_square(vstd::arithmetic::power::pow(16, 2), 0x100);
    vstd::arithmetic::power::lemma_pow_adds(16, 4, 4);
    lemma_square(vstd::arithmetic::power::pow(16, 4), 0x1_0000);
    vstd::arithmetic::power::lemma_pow_adds(16, 8, 8);
    lemma_square(vstd::arithmetic::power::pow(16, 8), 0x1_0000_0000);
    vstd::arithmetic::power::lemma_pow_adds(16, 16, 16);
    lemma_square(vstd::arithmetic::power::pow(16, 16), 0x1_0000_0000_0000_0000);
}

proof fn lemma_square(x: int, y: int)
    requires
        x == y,
    ensures
        x * x == y * y,
{
}

/// Different ids have different texts: the text under which a recording is stored is its own.
pub proof fn law_id_text_injective(a: u128, b: u128)
    requires
        id_text_of(a) == id_text_of(b),
    ensures
        a == b,
{
    assert forall|k: int| 0 <= k < 32 implies #[trigger] id_digit(a, k) == id_digit(b, k) by {
        let i = place_of(k);
        assert(!hyphen_at(i) && i - hyphens_before(i) == k && 0 <= i < 36);
        assert(id_text_of(a)[i] == hex_digit(id_digit(a, i - hyphens_before(i))));
        assert(id_text_of(b)[i] == hex_digit(id_digit(b, i - hyphens_before(i))));
        assert(hex_digit(id_digit(a, k)) == hex_digit(id_digit(b, k)));
        assert(0 <= id_digit(a, k) < 16 && 0 <= id_digit(b, k) < 16);
    }
    lemma_digits(a, b, 0);
    vstd::arithmetic::power::lemma_pow0(16);
}

} // verus!
