use vstd::prelude::*;

verus! {

/// A product of a bounded nonnegative factor and a bounded factor is
/// bounded: the machine-width arguments of the geometry checks stay far
/// inside the wide integers they are computed in.
pub proof fn lemma_mul_bound(a: int, b: int, cap_a: int, cap_b: int)
    by (nonlinear_arith)
    requires
        0 <= a <= cap_a,
        -cap_b <= b <= cap_b,
        0 <= cap_b,
    ensures
        -(cap_a * cap_b) <= a * b <= cap_a * cap_b,
{
}

/// Truncating division by the number of summands keeps a sum of bounded
/// summands inside the bound.
pub proof fn lemma_div_bound(sum: int, k: int, cap: int)
    by (nonlinear_arith)
    requires
        1 <= k,
        0 <= sum <= k * cap,
        0 <= cap,
    ensures
        0 <= sum / k <= cap,
{
}

} // verus!
