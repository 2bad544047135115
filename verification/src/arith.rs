//! Arithmetic and text helpers that the pallets take from the runtime's
//! libraries: per-million fractions of balances, 256-bit multiply/divide of
//! balances, and UTF-8 decoding. Each trusted wrapper makes the calls its
//! doc comment names and states what they return.

use vstd::prelude::*;
use vstd::utf8::valid_utf8;
use vstd::string::StringSliceAdditionalSpecFns;

verus! {

/// Parts in one whole of a per-million fraction.
pub const PERMILL_ACCURACY: u32 = 1_000_000;

/// The per-million fraction that `parts` builds: at most one whole.
pub open spec fn permill_parts(parts: u32) -> int {
    if parts <= PERMILL_ACCURACY { parts as int } else { PERMILL_ACCURACY as int }
}

/// `x` times the fraction `p / 1_000_000`, rounded to the nearest integer,
/// ties rounded down.
pub open spec fn permill_mul_spec(parts: u32, x: u128) -> int {
    let m = PERMILL_ACCURACY as int;
    let n = x * permill_parts(parts);
    n / m + if n % m > m / 2 { 1int } else { 0int }
}

/// `sp_runtime::Permill::from_parts(parts) * x`, the multiplication of a
/// balance by a per-million fraction. `from_parts` caps `parts` at one
/// whole. The product is computed as `(x / 1_000_000) * p` plus the share
/// of the remainder `rational_mul_correction` gives with
/// `Rounding::NearestPrefDown`, which is `x * p / 1_000_000` rounded to the
/// nearest integer with ties rounded down.
#[verifier::external_body]
fn permill_mul(parts: u32, x: u128) -> (r: u128)
    ensures
        r == permill_mul_spec(parts, x),
{
    sp_runtime::Permill::from_parts(parts) * x
}

/// The part of `x` that a per-million fraction takes never exceeds `x`.
pub proof fn lemma_permill_mul_le(parts: u32, x: u128)
    ensures
        0 <= permill_mul_spec(parts, x) <= x,
{
    let m = PERMILL_ACCURACY as int;
    let p = permill_parts(parts);
    let xi = x as int;
    let n = xi * p;
    assert(0 <= n <= xi * m) by (nonlinear_arith)
        requires 0 <= p <= m, xi >= 0, n == xi * p;
    let q = n / m;
    let r = n % m;
    assert(n == q * m + r) by (nonlinear_arith)
        requires m == 1_000_000, q == n / m, r == n % m;
    assert(0 <= r < m);
    assert(0 <= q <= xi) by (nonlinear_arith)
        requires n == q * m + r, 0 <= r < m, 0 <= n <= xi * m, m > 0;
    if q == xi {
        assert(r == 0) by (nonlinear_arith)
            requires n == q * m + r, 0 <= r, n <= xi * m, q == xi;
    }
}

/// A per-million fraction of a balance; never more than the balance.
pub fn permill_of(parts: u32, x: u128) -> (r: u128)
    ensures
        r == permill_mul_spec(parts, x),
        r <= x,
{
    proof {
        lemma_permill_mul_le(parts, x);
    }
    permill_mul(parts, x)
}

/// `(a * b) / c` computed in 256 bits with `sp_core::U256`:
/// `U256::from(a).saturating_mul(U256::from(b)).checked_div(U256::from(c))`,
/// then `as_u128` on the quotient. The product of two 128-bit values never
/// reaches `U256::MAX`, so the saturating multiplication is exact;
/// `checked_div` gives `None` exactly when `c` is zero; `as_u128` panics when
/// the quotient does not fit 128 bits, which `requires` leaves out.
#[verifier::external_body]
fn u256_mul_div(a: u128, b: u128, c: u128) -> (r: Option<u128>)
    requires
        c != 0 ==> (a * b) / (c as int) <= u128::MAX,
    ensures
        r == (if c == 0 { None } else { Some(((a * b) / (c as int)) as u128) }),
{
    let quotient = sp_core::U256::from(a).saturating_mul(sp_core::U256::from(b)).checked_div(
        sp_core::U256::from(c),
    );
    match quotient {
        Some(q) => Some(q.as_u128()),
        None => None,
    }
}

/// `a * b / c` rounded down, or `None` when `c` is zero.
pub open spec fn mul_div_spec(a: u128, b: u128, c: u128) -> Option<u128> {
    if c == 0 {
        None
    } else {
        Some(((a * b) / (c as int)) as u128)
    }
}

/// The quotient `a * b / c` fits a balance (or there is no quotient).
pub open spec fn mul_div_fits(a: u128, b: u128, c: u128) -> bool {
    c != 0 ==> (a * b) / (c as int) <= u128::MAX
}

/// `a * b / c` computed without intermediate overflow; `None` when `c` is zero.
pub fn mul_div(a: u128, b: u128, c: u128) -> (r: Option<u128>)
    requires
        mul_div_fits(a, b, c),
    ensures
        r == mul_div_spec(a, b, c),
{
    u256_mul_div(a, b, c)
}

/// `std::str::from_utf8(bytes)`, kept as an option: the standard library
/// documents that it succeeds exactly on valid UTF-8 and that the string it
/// returns is made of the same bytes.
#[verifier::external_body]
pub(crate) fn str_from_utf8(bytes: &[u8]) -> (r: Option<&str>)
    ensures
        r is Some <==> valid_utf8(bytes@),
        r matches Some(s) ==> s.spec_bytes() == bytes@,
{
    std::str::from_utf8(bytes).ok()
}

/// Whether two byte strings are equal.
pub fn bytes_eq(a: &[u8], b: &[u8]) -> (r: bool)
    ensures
        r == (a@ == b@),
{
    if a.len() != b.len() {
        return false;
    }
    let mut i: usize = 0;
    while i < a.len()
        invariant
            a@.len() == b@.len(),
            i <= a@.len(),
            forall|j: int| 0 <= j < i ==> a@[j] == b@[j],
        decreases a@.len() - i,
    {
        if a[i] != b[i] {
            return false;
        }
        i = i + 1;
    }
    assert(a@ =~= b@);
    true
}

} // verus!
