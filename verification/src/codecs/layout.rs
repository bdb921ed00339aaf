//! Sample-layout adapters for backends whose container has fewer layouts
//! than the image model does.

use vstd::prelude::*;
use vstd::arithmetic::div_mod::lemma_fundamental_div_mod_converse;

verus! {

/// Every whole pixel of a `c`-channel gray buffer with its gray sample
/// repeated three times, any trailing channels after it.
pub open spec fn widened_gray(s: Seq<u8>, c: int) -> Seq<u8> {
    Seq::new(((s.len() as int) / c * (c + 2)) as nat, |i: int| {
        let p = i / (c + 2);
        let k = i % (c + 2);
        if k < 3 { s[p * c] } else { s[p * c + k - 2] }
    })
}

/// Replicates a gray sample into three channels, keeping a trailing
/// alpha. `channels` is 1 for gray and 2 for gray plus alpha; samples
/// after the last whole pixel are dropped.
pub fn widen_gray(samples: &[u8], channels: usize) -> (r: Vec<u8>)
    requires
        channels >= 1,
    ensures
        r@ == widened_gray(samples@, channels as int),
{
    let c = channels;
    let n = samples.len();
    let count = n / c;
    let ghost target = widened_gray(samples@, c as int);
    proof {
        assert(count * c <= n) by (nonlinear_arith)
            requires count == (n as int) / (c as int), c >= 1;
    }
    let mut out: Vec<u8> = Vec::new();
    let mut p: usize = 0;
    while p < count
        invariant
            n == samples@.len(),
            c >= 1,
            count == (n as int) / (c as int),
            count * c <= n,
            target == widened_gray(samples@, c as int),
            p <= count,
            out@ == target.subrange(0, p * (c + 2)),
        decreases count - p,
    {
        proof {
            assert(p * c + c <= count * c) by (nonlinear_arith)
                requires p < count, c >= 1;
            assert(p * (c + 2) + (c + 2) <= count * (c + 2)) by (nonlinear_arith)
                requires p < count, c >= 1;
        }
        let base = p * c;
        let g = samples[base];
        proof {
            let q = p * (c + 2);
            lemma_fundamental_div_mod_converse(q + 0, (c + 2) as int, p as int, 0);
            lemma_fundamental_div_mod_converse(q + 1, (c + 2) as int, p as int, 1);
            lemma_fundamental_div_mod_converse(q + 2, (c + 2) as int, p as int, 2);
        }
        out.push(g);
        out.push(g);
        out.push(g);
        assert(out@ =~= target.subrange(0, p * (c + 2) + 3));
        let mut k: usize = 1;
        while k < c
            invariant
                n == samples@.len(),
                c >= 1,
                count == (n as int) / (c as int),
                target == widened_gray(samples@, c as int),
                p < count,
                base == p * c,
                base + c <= n,
                p * (c + 2) + (c + 2) <= count * (c + 2),
                1 <= k <= c,
                out@ == target.subrange(0, p * (c + 2) + k + 2),
            decreases c - k,
        {
            proof {
                lemma_fundamental_div_mod_converse(p * (c + 2) + k + 2, (c + 2) as int, p as int, k + 2);
            }
            out.push(samples[base + k]);
            k = k + 1;
            assert(out@ =~= target.subrange(0, p * (c + 2) + k + 2));
        }
        p = p + 1;
        assert((p - 1) * (c + 2) + (c + 2) == p * (c + 2)) by (nonlinear_arith);
    }
    assert(out@ =~= target);
    out
}

} // verus!
