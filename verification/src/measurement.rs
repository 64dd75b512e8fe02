//! Throughput arithmetic around the engine's synchronous call boundary:
//! transactions per second from a transaction count and an elapsed time, and
//! the average over a series of runs. An empty block or a zero elapsed time
//! reports no figure at all rather than dividing by zero, and a non-empty
//! timed block always reports a positive figure.

use vstd::prelude::*;

use vstd::arithmetic::div_mod::{
    lemma_div_is_ordered, lemma_div_multiples_vanish, lemma_fundamental_div_mod,
};
use vstd::arithmetic::mul::lemma_mul_inequality;

verus! {

/// Transactions per second, rounded up: the least figure that accounts for
/// every transaction of the block in the elapsed time.
pub open spec fn tps_value(txn_count: int, elapsed_ms: int) -> int {
    txn_count * 1000 / elapsed_ms + (if txn_count * 1000 % elapsed_ms > 0 {
        1int
    } else {
        0int
    })
}

/// Transactions per second of one run. Defined only for a non-empty block
/// and a positive elapsed time; everything else reports `None` explicitly
/// instead of dividing by zero or claiming an infinite rate.
pub fn throughput_tps(txn_count: usize, elapsed_ms: u64) -> (r: Option<u64>)
    requires
        txn_count * 1000 <= u64::MAX,
    ensures
        r is Some <==> (txn_count > 0 && elapsed_ms > 0),
        (r matches Some(v) ==> v == tps_value(txn_count as int, elapsed_ms as int) && v >= 1),
{
    if txn_count == 0 || elapsed_ms == 0 {
        return None;
    }
    let scaled: u64 = (txn_count as u64) * 1000;
    let q = scaled / elapsed_ms;
    let rem = scaled % elapsed_ms;
    proof {
        lemma_fundamental_div_mod(scaled as int, elapsed_ms as int);
    }
    if rem > 0 {
        proof {
            assert(q as int <= q as int * (elapsed_ms as int)) by (nonlinear_arith)
                requires
                    q >= 0,
                    elapsed_ms >= 1,
            ;
        }
        Some(q + 1)
    } else {
        proof {
            assert(q >= 1) by (nonlinear_arith)
                requires
                    scaled as int == q as int * (elapsed_ms as int),
                    scaled >= 1000,
                    elapsed_ms >= 1,
            ;
        }
        Some(q)
    }
}

/// The sum of a series of run figures.
pub open spec fn sum_of(xs: Seq<u64>) -> int
    decreases xs.len(),
{
    if xs.len() == 0 {
        0
    } else {
        sum_of(xs.drop_last()) + xs.last()
    }
}

/// The sum of run figures is at most one maximal figure per run.
proof fn lemma_sum_bound(xs: Seq<u64>)
    ensures
        0 <= sum_of(xs) <= xs.len() * (u64::MAX as int),
    decreases xs.len(),
{
    if xs.len() > 0 {
        lemma_sum_bound(xs.drop_last());
        assert((xs.len() - 1) * (u64::MAX as int) + (u64::MAX as int) == xs.len() * (
        u64::MAX as int)) by (nonlinear_arith);
    }
}

/// The average of a series of run figures, rounded down; `None` for an empty
/// series rather than a division by zero.
pub fn average_tps(xs: &Vec<u64>) -> (r: Option<u64>)
    ensures
        r is Some <==> xs@.len() > 0,
        (r matches Some(v) ==> v == sum_of(xs@) / (xs@.len() as int)),
{
    if xs.len() == 0 {
        return None;
    }
    let mut acc: u128 = 0;
    let mut i: usize = 0;
    proof {
        assert(xs@.subrange(0, 0) =~= Seq::<u64>::empty());
    }
    while i < xs.len()
        invariant
            i <= xs.len(),
            acc == sum_of(xs@.subrange(0, i as int)),
            acc <= (i as int) * (u64::MAX as int),
        decreases xs.len() - i,
    {
        proof {
            assert(xs@.subrange(0, i as int + 1).drop_last() =~= xs@.subrange(0, i as int));
            assert((i as int) * (u64::MAX as int) + (u64::MAX as int) == (i as int + 1) * (
            u64::MAX as int)) by (nonlinear_arith);
            lemma_mul_inequality(i as int + 1, u64::MAX as int, u64::MAX as int);
            assert((u64::MAX as int) * (u64::MAX as int) <= u128::MAX as int)
                by (nonlinear_arith);
        }
        acc = acc + (xs[i] as u128);
        i = i + 1;
    }
    proof {
        assert(xs@.subrange(0, xs@.len() as int) =~= xs@);
    }
    let avg = acc / (xs.len() as u128);
    proof {
        lemma_sum_bound(xs@);
        lemma_div_is_ordered(
            sum_of(xs@),
            xs@.len() * (u64::MAX as int),
            xs@.len() as int,
        );
        lemma_div_multiples_vanish(u64::MAX as int, xs@.len() as int);
    }
    Some(avg as u64)
}

} // verus!
