//! Arithmetic on integers modulo a positive number, and the laws of it that
//! the prime fields rest on.

use vstd::arithmetic::div_mod::{
    lemma_add_mod_noop, lemma_add_mod_noop_right, lemma_mod_bound, lemma_mul_mod_noop_left,
    lemma_mul_mod_noop_right, lemma_small_mod, lemma_sub_mod_noop_right,
};
use vstd::prelude::*;

verus! {

/// `a + b` modulo `p`.
pub open spec fn add_mod(a: int, b: int, p: int) -> int {
    (a + b) % p
}

/// `-a` modulo `p`.
pub open spec fn neg_mod(a: int, p: int) -> int {
    (-a) % p
}

/// `a - b` modulo `p`.
pub open spec fn sub_mod(a: int, b: int, p: int) -> int {
    (a - b) % p
}

/// `a * b` modulo `p`.
pub open spec fn mul_mod(a: int, b: int, p: int) -> int {
    (a * b) % p
}

/// Every residue lies between zero and the modulus.
pub proof fn lemma_residues_bounded(a: int, b: int, p: int)
    requires
        p > 0,
    ensures
        0 <= add_mod(a, b, p) < p,
        0 <= neg_mod(a, p) < p,
        0 <= sub_mod(a, b, p) < p,
        0 <= mul_mod(a, b, p) < p,
{
    lemma_mod_bound(a + b, p);
    lemma_mod_bound(-a, p);
    lemma_mod_bound(a - b, p);
    lemma_mod_bound(a * b, p);
}

/// `(a + b) + (c + d) = (a + c) + (b + d)` modulo `p`.
pub proof fn lemma_add_interchange(a: int, b: int, c: int, d: int, p: int)
    requires
        p > 0,
    ensures
        add_mod(add_mod(a, b, p), add_mod(c, d, p), p) == add_mod(
            add_mod(a, c, p),
            add_mod(b, d, p),
            p,
        ),
{
    lemma_add_mod_noop(a + b, c + d, p);
    lemma_add_mod_noop(a + c, b + d, p);
}

/// `a - b = a + (-b)` modulo `p`.
pub proof fn lemma_sub_is_add_neg(a: int, b: int, p: int)
    requires
        p > 0,
    ensures
        sub_mod(a, b, p) == add_mod(a, neg_mod(b, p), p),
{
    lemma_add_mod_noop_right(a, -b, p);
}

/// `-(a + b) = (-a) + (-b)` modulo `p`.
pub proof fn lemma_neg_add(a: int, b: int, p: int)
    requires
        p > 0,
    ensures
        neg_mod(add_mod(a, b, p), p) == add_mod(neg_mod(a, p), neg_mod(b, p), p),
{
    lemma_sub_mod_noop_right(0, a + b, p);
    lemma_add_mod_noop(-a, -b, p);
}

/// `-(-a) = a` modulo `p`, for a residue `a`.
pub proof fn lemma_neg_neg(a: int, p: int)
    requires
        p > 0,
        0 <= a < p,
    ensures
        neg_mod(neg_mod(a, p), p) == a,
{
    lemma_sub_mod_noop_right(0, -a, p);
    lemma_small_mod(a as nat, p as nat);
}

/// `(a + b) * s = a * s + b * s` modulo `p`.
pub proof fn lemma_mul_distributes(a: int, b: int, s: int, p: int)
    requires
        p > 0,
    ensures
        mul_mod(add_mod(a, b, p), s, p) == add_mod(mul_mod(a, s, p), mul_mod(b, s, p), p),
{
    lemma_mul_mod_noop_left(a + b, s, p);
    lemma_add_mod_noop(a * s, b * s, p);
    assert((a + b) * s == a * s + b * s) by (nonlinear_arith);
}

/// `a + (v - a) = v` modulo `p`, for a residue `v`.
pub proof fn lemma_sub_cancel(a: int, v: int, p: int)
    requires
        p > 0,
        0 <= v < p,
    ensures
        add_mod(a, sub_mod(v, a, p), p) == v,
{
    lemma_add_mod_noop_right(a, v - a, p);
    lemma_small_mod(v as nat, p as nat);
}

/// `r * a + r * b = r * (a + b)` modulo `p`.
pub proof fn lemma_scaled_add(r: int, a: int, b: int, p: int)
    requires
        p > 0,
    ensures
        add_mod(mul_mod(r, a, p), mul_mod(r, b, p), p) == mul_mod(r, add_mod(a, b, p), p),
{
    lemma_add_mod_noop(r * a, r * b, p);
    lemma_mul_mod_noop_right(r, a + b, p);
    assert(r * (a + b) == r * a + r * b) by (nonlinear_arith);
}

/// `-(r * a) = r * (-a)` modulo `p`.
pub proof fn lemma_scaled_neg(r: int, a: int, p: int)
    requires
        p > 0,
    ensures
        neg_mod(mul_mod(r, a, p), p) == mul_mod(r, neg_mod(a, p), p),
{
    lemma_sub_mod_noop_right(0, r * a, p);
    lemma_mul_mod_noop_right(r, -a, p);
    assert(r * (-a) == -(r * a)) by (nonlinear_arith);
}

/// `(r * a) * s = r * (a * s)` modulo `p`.
pub proof fn lemma_scaled_mul(r: int, a: int, s: int, p: int)
    requires
        p > 0,
    ensures
        mul_mod(mul_mod(r, a, p), s, p) == mul_mod(r, mul_mod(a, s, p), p),
{
    lemma_mul_mod_noop_left(r * a, s, p);
    lemma_mul_mod_noop_right(r, a * s, p);
    assert((r * a) * s == r * (a * s)) by (nonlinear_arith);
}

} // verus!
