//! Arithmetic in the BabyBear prime field, the base field of every trace
//! column and transcript element in this crate.
//!
//! A field element is carried as a `u32` in canonical form, that is, strictly
//! below the prime. All operations reduce modulo the prime.

use vstd::prelude::*;

verus! {

/// The BabyBear prime, `2^31 - 2^27 + 1`.
pub const FIELD_PRIME: u32 = 2013265921;

/// Whether `x` is a canonical field element.
pub open spec fn is_felt(x: u32) -> bool {
    x < FIELD_PRIME
}

/// Whether every entry of `s` is a canonical field element.
pub open spec fn all_felts(s: Seq<u32>) -> bool {
    forall|i: int| 0 <= i < s.len() ==> is_felt(#[trigger] s[i])
}

/// Field addition as a mathematical function.
pub open spec fn fadd(a: u32, b: u32) -> u32 {
    (((a as int) + (b as int)) % (FIELD_PRIME as int)) as u32
}

/// Field multiplication as a mathematical function.
pub open spec fn fmul(a: u32, b: u32) -> u32 {
    (((a as int) * (b as int)) % (FIELD_PRIME as int)) as u32
}

/// The seventh power, the S-box degree used by the permutation chip.
pub open spec fn fpow7(x: u32) -> u32 {
    let x2 = fmul(x, x);
    let x4 = fmul(x2, x2);
    fmul(fmul(x4, x2), x)
}

/// Add two canonical field elements.
pub fn felt_add(a: u32, b: u32) -> (r: u32)
    requires
        is_felt(a),
        is_felt(b),
    ensures
        r == fadd(a, b),
        is_felt(r),
{
    let s: u64 = (a as u64) + (b as u64);
    let p: u64 = FIELD_PRIME as u64;
    if s >= p {
        (s - p) as u32
    } else {
        s as u32
    }
}

/// Multiply two canonical field elements.
pub fn felt_mul(a: u32, b: u32) -> (r: u32)
    requires
        is_felt(a),
        is_felt(b),
    ensures
        r == fmul(a, b),
        is_felt(r),
{
    assert((a as u64) * (b as u64) <= (u32::MAX as u64) * (u32::MAX as u64)) by (nonlinear_arith)
        requires
            a <= u32::MAX,
            b <= u32::MAX,
    ;
    let prod: u64 = (a as u64) * (b as u64);
    let p: u64 = FIELD_PRIME as u64;
    let r: u64 = prod % p;
    assert(r < p);
    r as u32
}

/// The seventh power of a canonical field element.
pub fn felt_pow7(x: u32) -> (r: u32)
    requires
        is_felt(x),
    ensures
        r == fpow7(x),
        is_felt(r),
{
    let x2 = felt_mul(x, x);
    let x4 = felt_mul(x2, x2);
    felt_mul(felt_mul(x4, x2), x)
}

/// Copy a vector of field elements; the copy carries the same view.
pub fn copy_felts(v: &Vec<u32>) -> (r: Vec<u32>)
    ensures
        r@ == v@,
{
    let mut r: Vec<u32> = Vec::new();
    let mut i: usize = 0;
    while i < v.len()
        invariant
            i <= v.len(),
            r@ == v@.take(i as int),
        decreases v.len() - i,
    {
        r.push(v[i]);
        assert(r@ == v@.take(i as int + 1));
        i = i + 1;
    }
    assert(v@.take(v@.len() as int) == v@);
    r
}

} // verus!
