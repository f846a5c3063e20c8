//! Page sizes and rounding to page boundaries.

use vstd::arithmetic::div_mod::{lemma_fundamental_div_mod, lemma_mod_multiples_basic};
use vstd::arithmetic::mul::lemma_mul_is_commutative;
use vstd::arithmetic::power::pow;
use vstd::arithmetic::power2::{
    is_pow2, is_pow2_equiv, lemma2_to64, lemma_pow2, lemma_pow2_adds, lemma_pow2_strictly_increases,
    pow2,
};
use vstd::bits::{lemma_usize_low_bits_mask_is_mod, low_bits_mask};
use vstd::prelude::*;

use crate::text::join;

verus! {

/// `value` rounded up to a multiple of `align`.
pub open spec fn rounded_up(value: int, align: int) -> int {
    (value + align - 1) / align * align
}

/// Whether rounding `value` up to a multiple of `align` stays in range: the padded
/// value fits a `usize`.
pub open spec fn can_round_up(value: int, align: int) -> bool {
    value + align - 1 <= usize::MAX
}

/// The exponent of a power of two that fits a `usize`.
proof fn lemma_exponent(align: usize) -> (n: nat)
    requires
        is_pow2(align as int),
    ensures
        pow2(n) == align,
        n < usize::BITS,
        pow2(usize::BITS as nat) == usize::MAX + 1,
        align >= 1,
{
    is_pow2_equiv(align as int);
    let n = choose|i: nat| pow(2, i) == align as int;
    lemma_pow2(n);
    lemma2_to64();
    if n > usize::BITS {
        lemma_pow2_strictly_increases(usize::BITS as nat, n);
    }
    reveal(is_pow2);
    n
}

/// A multiple of a power of two that fits a `usize` is a whole `align` away from the end
/// of the range, so that it can be rounded itself.
pub proof fn multiple_can_round_up(value: usize, align: usize)
    requires
        is_pow2(align as int),
        value as int % align as int == 0,
    ensures
        can_round_up(value as int, align as int),
{
    let n = lemma_exponent(align);
    let rest = (usize::BITS - n) as nat;
    lemma_pow2_adds(n, rest);
    lemma_fundamental_div_mod(value as int, align as int);
    let q = value as int / align as int;
    if q >= pow2(rest) {
        assert(align * q >= align * pow2(rest)) by (nonlinear_arith)
            requires
                q >= pow2(rest),
                align >= 1,
        ;
    }
    assert(align * q + align <= align * pow2(rest)) by (nonlinear_arith)
        requires
            q + 1 <= pow2(rest),
            align >= 1,
    ;
}

/// Clearing the low bits of `x` below a power of two rounds `x` down to a multiple.
proof fn lemma_mask_rounds_down(x: usize, align: usize)
    requires
        is_pow2(align as int),
    ensures
        align >= 1,
        x & !((align - 1) as usize) == x as int / align as int * align as int,
{
    let n = lemma_exponent(align);
    lemma_usize_low_bits_mask_is_mod(x, n);
    let mask = (align - 1) as usize;
    assert(low_bits_mask(n) == mask);
    assert((x & !mask) == x - (x & mask)) by (bit_vector);
    lemma_fundamental_div_mod(x as int, align as int);
    lemma_mul_is_commutative(align as int, x as int / align as int);
}

/// Whether `n` is a power of two, as page sizes are.
pub fn is_power_of_two(n: usize) -> (r: bool)
    ensures
        r == is_pow2(n as int),
{
    let mut rest: usize = n;
    while rest > 1 && rest % 2 == 0
        invariant
            is_pow2(n as int) == is_pow2(rest as int),
        decreases rest,
    {
        proof {
            reveal(is_pow2);
        }
        rest = rest / 2;
    }
    proof {
        reveal(is_pow2);
    }
    rest == 1
}

/// Rounds `value` up to a multiple of `align`, which is a power of two.
pub fn round_up(value: usize, align: usize) -> (r: Result<usize, String>)
    requires
        is_pow2(align as int),
    ensures
        match r {
            Ok(v) => can_round_up(value as int, align as int) && v == rounded_up(
                value as int,
                align as int,
            ),
            Err(e) => !can_round_up(value as int, align as int) && e@
                == "page alignment overflow"@,
        },
{
    proof {
        lemma_mask_rounds_down(0, align);
    }
    match value.checked_add(align - 1) {
        Some(padded) => {
            proof {
                lemma_mask_rounds_down(padded, align);
            }
            Ok(padded & !(align - 1))
        },
        None => Err("page alignment overflow".to_owned()),
    }
}

/// What `sysconf(_SC_PAGESIZE)` says of the page size: `raw` is its result and
/// `os_error` the text of the last operating-system error.
pub fn page_size(raw: i64, os_error: &str) -> (r: Result<usize, String>)
    ensures
        match r {
            Ok(size) => 0 < raw <= usize::MAX && size == raw,
            Err(e) => (raw <= 0 && e@ == "sysconf(_SC_PAGESIZE) failed: "@ + os_error@) || (raw
                > usize::MAX && e@ == "page size does not fit usize"@),
        },
{
    if raw <= 0 {
        return Err(join("sysconf(_SC_PAGESIZE) failed: ", os_error));
    }
    if raw as u64 > usize::MAX as u64 {
        return Err("page size does not fit usize".to_owned());
    }
    Ok(raw as usize)
}

/// Rounding up gives the least multiple of `align` that is not below `value`.
pub proof fn rounded_up_is_least_multiple(value: int, align: int)
    requires
        0 <= value,
        0 < align,
    ensures
        rounded_up(value, align) % align == 0,
        value <= rounded_up(value, align) < value + align,
        forall|m: int| value <= m && #[trigger] (m % align) == 0 ==> rounded_up(value, align) <= m,
{
    let padded = value + align - 1;
    lemma_fundamental_div_mod(padded, align);
    lemma_mod_multiples_basic(padded / align, align);
    lemma_mul_is_commutative(align, padded / align);
    assert forall|m: int| value <= m && #[trigger] (m % align) == 0 implies rounded_up(value, align)
        <= m by {
        lemma_fundamental_div_mod(m, align);
        if rounded_up(value, align) > m {
            let q = padded / align;
            assert(q * align < (m / align + 1) * align) by (nonlinear_arith)
                requires
                    q * align < value + align,
                    value <= align * (m / align),
            ;
            assert(q < m / align + 1) by (nonlinear_arith)
                requires
                    q * align < (m / align + 1) * align,
                    0 < align,
            ;
            assert(q * align <= m / align * align) by (nonlinear_arith)
                requires
                    q <= m / align,
                    0 < align,
            ;
            lemma_mul_is_commutative(align, m / align);
        }
    }
}

/// Rounding up is monotone, and leaves multiples of `align` as they are.
pub proof fn rounded_up_is_closure(a: int, b: int, align: int)
    requires
        0 <= a <= b,
        0 < align,
    ensures
        rounded_up(a, align) <= rounded_up(b, align),
        rounded_up(rounded_up(a, align), align) == rounded_up(a, align),
        a % align == 0 ==> rounded_up(a, align) == a,
{
    rounded_up_is_least_multiple(a, align);
    rounded_up_is_least_multiple(b, align);
    rounded_up_is_least_multiple(rounded_up(a, align), align);
}

} // verus!
